//! A whole transfer over a channel that loses, corrupts and duplicates
//! nothing: the sender and receiver transition tables composed, with each
//! datagram decoded on arrival exactly as it was encoded.

use vstd::prelude::*;
use crate::pck::{Flag, PacketView, parse, built, lemma_parse_wire};
use crate::fsm_send::{SndStateView, SndEventView, snd_step, spec_next_n, seq_bit};
use crate::fsm_recv::{RcvStateView, RcvEventView, rcv_step, answer, file_name_of};

verus! {

/// Both ends of a transfer, what the receiver has written so far, the
/// sender's count of DATA payload bytes handed over, the frames the sender
/// transmitted, and the number of frame/answer exchanges made.
pub ghost struct Link {
    pub snd: SndStateView,
    pub rcv: RcvStateView,
    pub written: Seq<u8>,
    pub sent: nat,
    pub frames: Seq<PacketView>,
    pub round_trips: nat,
}

/// The payload pieces a file is sent in: 508 bytes each, the last one
/// shorter; none for an empty file.
pub open spec fn chunks(data: Seq<u8>) -> Seq<Seq<u8>>
    decreases data.len(),
{
    if data.len() == 0 {
        Seq::empty()
    } else if data.len() <= 508 {
        seq![data]
    } else {
        seq![data.take(508)] + chunks(data.skip(508))
    }
}

/// One exchange without loss: the sender takes `e` (with `payload`), its
/// frame reaches the receiver, and the receiver's answer reaches the sender,
/// whose file then has more data exactly when `more`.
pub open spec fn exchange(l: Link, max: u8, e: SndEventView, payload: Seq<u8>, more: bool) -> Link {
    let (snd1, o1) = snd_step(l.snd, max, e, payload, false);
    let frame = parse(o1.send->Some_0)->Ok_0;
    let (rcv1, o2) = rcv_step(l.rcv, RcvEventView::RecvPck(Some(frame)))->Ok_0;
    let reply = parse(o2.send->Some_0)->Ok_0;
    let (snd2, _) = snd_step(snd1, max, SndEventView::RecvPck(Some(reply)), Seq::empty(), more);
    Link {
        snd: snd2,
        rcv: rcv1,
        written: l.written + match o2.write {
            Some(w) => w,
            None => Seq::empty(),
        },
        sent: l.sent + o1.data_sent,
        frames: l.frames.push(frame),
        round_trips: l.round_trips + 1,
    }
}

/// Data exchanges, one per piece.
pub open spec fn send_chunks(l: Link, max: u8, cs: Seq<Seq<u8>>) -> Link
    decreases cs.len(),
{
    if cs.len() == 0 {
        l
    } else {
        send_chunks(
            exchange(l, max, SndEventView::DataAvailable(true), cs[0], cs.len() > 1),
            max,
            cs.drop_first(),
        )
    }
}

/// A whole transfer of `data` under the file name `name`: SYN, the data
/// pieces, FIN.
pub open spec fn lossless_transfer(name: Seq<u8>, data: Seq<u8>, max: u8) -> Link {
    let l0 = Link {
        snd: SndStateView::Start { n: 0 },
        rcv: RcvStateView::WaitForConnection,
        written: Seq::empty(),
        sent: 0,
        frames: Seq::empty(),
        round_trips: 0,
    };
    let l1 = exchange(l0, max, SndEventView::InitSYN, name, data.len() > 0);
    let l2 = send_chunks(l1, max, chunks(data));
    exchange(l2, max, SndEventView::DataAvailable(false), Seq::empty(), false)
}

/// The DATA frames that carry the pieces `cs`, numbered from `n` on.
pub open spec fn data_frames(cs: Seq<Seq<u8>>, n: u8) -> Seq<PacketView>
    decreases cs.len(),
{
    if cs.len() == 0 {
        Seq::empty()
    } else {
        seq![built(seq_bit(n), Flag::Data, cs[0])] + data_frames(cs.drop_first(), spec_next_n(n))
    }
}

/// The frames a sender transmits for `data` under `name` when nothing is
/// lost: SYN with number 0, the DATA frames numbered 1, 0, 1, ..., then an
/// empty FIN.
pub open spec fn transfer_frames(name: Seq<u8>, data: Seq<u8>) -> Seq<PacketView> {
    let cs = chunks(data);
    seq![built(false, Flag::SYN, name)] + data_frames(cs, 1) + seq![
        built(seq_bit(n_after(1, cs.len())), Flag::FIN, Seq::empty()),
    ]
}

/// The sequence number after `k` acknowledged frames starting from `n`.
pub open spec fn n_after(n: u8, k: nat) -> u8 {
    if k % 2 == 0 {
        n
    } else {
        spec_next_n(n)
    }
}

proof fn lemma_chunks(data: Seq<u8>)
    ensures
        chunks(data).flatten() == data,
        chunks(data).len() == (data.len() + 507) / 508,
        forall|i: int| 0 <= i < chunks(data).len() ==> #[trigger] chunks(data)[i].len() <= 508,
    decreases data.len(),
{
    if data.len() == 0 {
        assert(data =~= Seq::<u8>::empty());
    } else if data.len() <= 508 {
        assert(seq![data].drop_first() =~= Seq::<Seq<u8>>::empty());
        assert(Seq::<Seq<u8>>::empty().flatten() == Seq::<u8>::empty());
        assert(seq![data].flatten() == data + seq![data].drop_first().flatten());
        assert(data + Seq::<u8>::empty() =~= data);
    } else {
        let rest = data.skip(508);
        lemma_chunks(rest);
        let cs = chunks(data);
        assert(cs.first() == data.take(508));
        assert(cs.drop_first() =~= chunks(rest));
        assert(data.take(508) + rest =~= data);
        assert(cs.flatten() == cs.first() + cs.drop_first().flatten());
        assert forall|i: int| 0 <= i < cs.len() implies #[trigger] cs[i].len() <= 508 by {
            if i > 0 {
                assert(cs[i] == chunks(rest)[i - 1]);
            }
        }
    }
}

proof fn lemma_data_exchange(l: Link, max: u8, n: u8, c: Seq<u8>, more: bool)
    requires
        n <= 1,
        c.len() <= 508,
        l.snd == (SndStateView::Send { n }),
        l.rcv == (RcvStateView::WaitForPkt { last: answer(Flag::ACK, !seq_bit(n)) }),
    ensures
        exchange(l, max, SndEventView::DataAvailable(true), c, more) == (Link {
            snd: SndStateView::Send { n: spec_next_n(n) },
            rcv: RcvStateView::WaitForPkt { last: answer(Flag::ACK, seq_bit(n)) },
            written: l.written + c,
            sent: l.sent + c.len(),
            frames: l.frames.push(built(seq_bit(n), Flag::Data, c)),
            round_trips: l.round_trips + 1,
        }),
{
    let frame = built(seq_bit(n), Flag::Data, c);
    lemma_parse_wire(frame);
    let ack = answer(Flag::ACK, seq_bit(n));
    lemma_parse_wire(ack);
}

proof fn lemma_send_chunks(l: Link, max: u8, n: u8, cs: Seq<Seq<u8>>)
    requires
        n <= 1,
        forall|i: int| 0 <= i < cs.len() ==> #[trigger] cs[i].len() <= 508,
        l.snd == (SndStateView::Send { n }),
        l.rcv == (RcvStateView::WaitForPkt { last: answer(Flag::ACK, !seq_bit(n)) }),
    ensures
        send_chunks(l, max, cs) == (Link {
            snd: SndStateView::Send { n: n_after(n, cs.len()) },
            rcv: RcvStateView::WaitForPkt { last: answer(Flag::ACK, !seq_bit(n_after(n, cs.len()))) },
            written: l.written + cs.flatten(),
            sent: l.sent + cs.flatten().len(),
            frames: l.frames + data_frames(cs, n),
            round_trips: l.round_trips + cs.len(),
        }),
    decreases cs.len(),
{
    if cs.len() == 0 {
        assert(l.written + cs.flatten() =~= l.written);
        assert(l.frames + data_frames(cs, n) =~= l.frames);
    } else {
        lemma_data_exchange(l, max, n, cs[0], cs.len() > 1);
        let l1 = exchange(l, max, SndEventView::DataAvailable(true), cs[0], cs.len() > 1);
        let m = spec_next_n(n);
        assert(!seq_bit(m) == seq_bit(n));
        let rest = cs.drop_first();
        assert forall|i: int| 0 <= i < rest.len() implies #[trigger] rest[i].len() <= 508 by {
            assert(rest[i] == cs[i + 1]);
        }
        lemma_send_chunks(l1, max, m, rest);
        assert(n_after(m, rest.len()) == n_after(n, cs.len()));
        assert(cs.flatten() == cs[0] + rest.flatten());
        assert(l.frames.push(built(seq_bit(n), Flag::Data, cs[0])) + data_frames(rest, m) =~= l.frames
            + data_frames(cs, n));
        assert(l.written + cs[0] + rest.flatten() =~= l.written + cs.flatten());
    }
}

/// The bytes an optional write adds.
pub open spec fn written_by(w: Option<Seq<u8>>) -> Seq<u8> {
    match w {
        Some(b) => b,
        None => Seq::empty(),
    }
}

/// A data exchange in which the first attempt is lost: the frame itself,
/// or (when `answer_lost`) the receiver's answer to it. The sender times
/// out, retransmits, and the second attempt goes through both ways.
pub open spec fn exchange_after_loss(l: Link, max: u8, c: Seq<u8>, more: bool, answer_lost: bool) -> Link {
    let (snd1, o1) = snd_step(l.snd, max, SndEventView::DataAvailable(true), c, false);
    let frame = parse(o1.send->Some_0)->Ok_0;
    let first = rcv_step(l.rcv, RcvEventView::RecvPck(Some(frame)))->Ok_0;
    let rcv1 = if answer_lost { first.0 } else { l.rcv };
    let w1 = if answer_lost { written_by(first.1.write) } else { Seq::empty() };
    let (snd2, o2) = snd_step(snd1, max, SndEventView::Timeout, Seq::empty(), false);
    let frame2 = parse(o2.send->Some_0)->Ok_0;
    let (rcv2, o3) = rcv_step(rcv1, RcvEventView::RecvPck(Some(frame2)))->Ok_0;
    let reply = parse(o3.send->Some_0)->Ok_0;
    let (snd3, _) = snd_step(snd2, max, SndEventView::RecvPck(Some(reply)), Seq::empty(), more);
    Link {
        snd: snd3,
        rcv: rcv2,
        written: l.written + w1 + written_by(o3.write),
        sent: l.sent + o1.data_sent + o2.data_sent,
        frames: l.frames.push(frame).push(frame2),
        round_trips: l.round_trips + 2,
    }
}

/// During a session, losing a DATA frame or its acknowledgement costs one
/// retransmission and nothing else: both ends reach the states of a
/// lossless exchange and the receiver writes the payload exactly once.
pub proof fn lemma_one_loss_is_repaired(l: Link, max: u8, n: u8, c: Seq<u8>, more: bool, answer_lost: bool)
    requires
        max >= 1,
        n <= 1,
        c.len() <= 508,
        l.snd == (SndStateView::Send { n }),
        l.rcv == (RcvStateView::WaitForPkt { last: answer(Flag::ACK, !seq_bit(n)) }),
    ensures
        exchange_after_loss(l, max, c, more, answer_lost) == (Link {
            round_trips: l.round_trips + 2,
            frames: l.frames.push(built(seq_bit(n), Flag::Data, c)).push(built(seq_bit(n), Flag::Data, c)),
            ..exchange(l, max, SndEventView::DataAvailable(true), c, more)
        }),
{
    let frame = built(seq_bit(n), Flag::Data, c);
    lemma_parse_wire(frame);
    let ack = answer(Flag::ACK, seq_bit(n));
    lemma_parse_wire(ack);
    lemma_data_exchange(l, max, n, c, more);
    assert(l.written + Seq::<u8>::empty() + c =~= l.written + c);
    assert(l.written + c + Seq::<u8>::empty() =~= l.written + c);
}

/// Without loss, corruption or duplication, a file of `N` bytes arrives
/// byte for byte in `ceil(N / 508) + 2` exchanges (SYN, one per piece,
/// FIN), with no timeout and so no retransmission: the sender transmits
/// exactly `transfer_frames(name, data)`, counts `N` bytes handed over, and
/// both ends finish the session.
pub proof fn lemma_lossless_transfer(name: Seq<u8>, data: Seq<u8>, max: u8)
    requires
        name.len() <= 508,
        file_name_of(name) is Ok,
    ensures
        lossless_transfer(name, data, max) == (Link {
            snd: SndStateView::End,
            rcv: RcvStateView::WaitForConnection,
            written: data,
            sent: data.len(),
            frames: transfer_frames(name, data),
            round_trips: ((data.len() + 507) / 508 + 2) as nat,
        }),
{
    let l0 = Link {
        snd: SndStateView::Start { n: 0 },
        rcv: RcvStateView::WaitForConnection,
        written: Seq::empty(),
        sent: 0,
        frames: Seq::empty(),
        round_trips: 0,
    };
    let syn = built(false, Flag::SYN, name);
    lemma_parse_wire(syn);
    let ack0 = answer(Flag::ACK, false);
    lemma_parse_wire(ack0);
    let l1 = exchange(l0, max, SndEventView::InitSYN, name, data.len() > 0);
    assert(l1 == (Link {
        snd: SndStateView::Send { n: 1 },
        rcv: RcvStateView::WaitForPkt { last: ack0 },
        written: Seq::empty(),
        sent: 0,
        frames: seq![syn],
        round_trips: 1,
    })) by {
        assert(Seq::<u8>::empty() + Seq::<u8>::empty() =~= Seq::<u8>::empty());
    }
    lemma_chunks(data);
    let cs = chunks(data);
    lemma_send_chunks(l1, max, 1, cs);
    let l2 = send_chunks(l1, max, cs);
    let n = n_after(1, cs.len());
    let fin = built(seq_bit(n), Flag::FIN, Seq::empty());
    lemma_parse_wire(fin);
    let finack = answer(Flag::FINACK, seq_bit(n));
    lemma_parse_wire(finack);
    assert(Seq::<u8>::empty() + data =~= data);
    assert(data + Seq::<u8>::empty() =~= data);
    assert((seq![syn] + data_frames(cs, 1)).push(fin) =~= transfer_frames(name, data));
}

} // verus!
