use std::collections::VecDeque;

use secsnail::channel::emit_datagrams;
use secsnail::fsm_recv::{self as rcv, RcvEvent, RcvFsm};
use secsnail::fsm_send::{FsmWrap, SndEvent, SndFsm, SndNeed, next_event_kind};
use secsnail::pck::{Flag, Packet};
use secsnail::timer::TimerCmd;

/// A frame as seen on the wire: who sent it, kind, sequence bit, payload length.
#[derive(Debug, Clone, PartialEq)]
struct Frame {
    from_sender: bool,
    kind: &'static str,
    n: u8,
    len: usize,
}

fn kind_name(p: &Packet) -> &'static str {
    if p.is_SYN() {
        "SYN"
    } else if p.is_ACK() {
        "ACK"
    } else if p.is_FIN() {
        "FIN"
    } else if p.is_FINACK() {
        "FINACK"
    } else {
        "DATA"
    }
}

/// What happens to one datagram: lost, bit to flip, duplicated.
type Fault = (bool, Option<(usize, u8)>, bool);

struct Outcome {
    data_counter: usize,
    ended: bool,
    opened: Vec<String>,
    received: Vec<u8>,
    closed: usize,
    frames: Vec<Frame>,
    sender_transmissions: usize,
    timeouts: usize,
}

/// Runs a sender and a receiver against each other over an in-memory
/// channel; `fault(from_sender, index)` decides the fate of each datagram.
fn run(name: &str, data: &[u8], max: u8, mut fault: impl FnMut(bool, usize) -> Fault) -> Outcome {
    let mut s = SndFsm::init(max).wrap();
    let mut r = rcv::FsmWrap::wrap(RcvFsm::init());
    let mut to_rcv: VecDeque<Vec<u8>> = VecDeque::new();
    let mut to_snd: VecDeque<Vec<u8>> = VecDeque::new();
    let mut out = Outcome {
        data_counter: 0,
        ended: false,
        opened: vec![],
        received: vec![],
        closed: 0,
        frames: vec![],
        sender_transmissions: 0,
        timeouts: 0,
    };
    let mut pos = 0usize;
    let mut sent_idx = 0usize;
    let mut reply_idx = 0usize;
    for _ in 0..100_000 {
        let need = next_event_kind(&s);
        let (event, payload) = match need {
            SndNeed::Done => {
                out.ended = true;
                break;
            }
            SndNeed::Init => (SndEvent::InitSYN, name.as_bytes().to_vec()),
            SndNeed::FileData => {
                let end = usize::min(pos + 508, data.len());
                let chunk = data[pos..end].to_vec();
                pos = end;
                (SndEvent::DataAvailable(!chunk.is_empty()), chunk)
            }
            SndNeed::AckOrTimeout => {
                // the receiver handles everything in flight first
                while let Some(d) = to_rcv.pop_front() {
                    let ev = RcvEvent::RecvPck(Packet::decode(d).ok());
                    let (next, o) = r.goto(ev).unwrap();
                    r = next;
                    if let Some(f) = o.open_file {
                        out.opened.push(f);
                    }
                    if let Some(w) = o.write {
                        out.received.extend_from_slice(&w);
                    }
                    if let Some(bytes) = o.send {
                        let p = Packet::decode(bytes.clone()).unwrap();
                        out.frames.push(Frame { from_sender: false, kind: kind_name(&p), n: p.n(), len: p.payload().len() });
                        let (lose, flip, dup) = fault(false, reply_idx);
                        reply_idx += 1;
                        for d in emit_datagrams(bytes, lose, flip, dup) {
                            to_snd.push_back(d);
                        }
                    }
                    if o.close_file {
                        out.closed += 1;
                    }
                }
                match to_snd.pop_front() {
                    Some(d) => (SndEvent::RecvPck(Packet::decode(d).ok()), vec![]),
                    None => {
                        out.timeouts += 1;
                        (SndEvent::Timeout, vec![])
                    }
                }
            }
        };
        let (next, o) = s.goto(event, payload, pos < data.len()).unwrap();
        s = next;
        out.data_counter += o.data_sent;
        if let Some(bytes) = o.send {
            out.sender_transmissions += 1;
            assert_eq!(o.timer, TimerCmd::Start);
            let p = Packet::decode(bytes.clone()).unwrap();
            out.frames.push(Frame { from_sender: true, kind: kind_name(&p), n: p.n(), len: p.payload().len() });
            let (lose, flip, dup) = fault(true, sent_idx);
            sent_idx += 1;
            for d in emit_datagrams(bytes, lose, flip, dup) {
                to_rcv.push_back(d);
            }
        }
    }
    // deliver what is still in flight (the last FINACK's effects)
    while let Some(d) = to_rcv.pop_front() {
        let (next, o) = r.goto(RcvEvent::RecvPck(Packet::decode(d).ok())).unwrap();
        r = next;
        if let Some(w) = o.write {
            out.received.extend_from_slice(&w);
        }
        if o.close_file {
            out.closed += 1;
        }
    }
    out
}

fn clean(_: bool, _: usize) -> Fault {
    (false, None, false)
}

fn f(from_sender: bool, kind: &'static str, n: u8, len: usize) -> Frame {
    Frame { from_sender, kind, n, len }
}

fn file(len: usize) -> Vec<u8> {
    (0..len).map(|i| (i * 31 % 251) as u8).collect()
}

#[test]
fn empty_file_scenario() {
    let o = run("empty.txt", &[], 100, clean);
    assert!(o.ended);
    assert_eq!(o.data_counter, 0);
    assert_eq!(o.opened, vec!["empty.txt".to_string()]);
    assert!(o.received.is_empty());
    assert_eq!(o.closed, 1);
    assert_eq!(
        o.frames,
        vec![f(true, "SYN", 0, 9), f(false, "ACK", 0, 0), f(true, "FIN", 1, 0), f(false, "FINACK", 1, 0)]
    );
}

#[test]
fn file_of_512_bytes_scenario() {
    let data = file(512);
    let o = run("a.bin", &data, 100, clean);
    assert!(o.ended);
    assert_eq!(o.data_counter, 512);
    assert_eq!(o.received, data);
    // at most 508 payload bytes fit in one frame
    assert_eq!(
        o.frames,
        vec![
            f(true, "SYN", 0, 5),
            f(false, "ACK", 0, 0),
            f(true, "DATA", 1, 508),
            f(false, "ACK", 1, 0),
            f(true, "DATA", 0, 4),
            f(false, "ACK", 0, 0),
            f(true, "FIN", 1, 0),
            f(false, "FINACK", 1, 0),
        ]
    );
}

#[test]
fn file_of_1024_bytes_scenario() {
    let data = file(1024);
    let o = run("b.bin", &data, 100, clean);
    assert!(o.ended);
    assert_eq!(o.data_counter, 1024);
    assert_eq!(o.received, data);
    assert_eq!(
        o.frames,
        vec![
            f(true, "SYN", 0, 5),
            f(false, "ACK", 0, 0),
            f(true, "DATA", 1, 508),
            f(false, "ACK", 1, 0),
            f(true, "DATA", 0, 508),
            f(false, "ACK", 0, 0),
            f(true, "DATA", 1, 8),
            f(false, "ACK", 1, 0),
            f(true, "FIN", 0, 0),
            f(false, "FINACK", 0, 0),
        ]
    );
}

#[test]
fn lossless_transfer_takes_pieces_plus_two_round_trips() {
    for len in [0usize, 1, 507, 508, 509, 1016, 1017, 5000] {
        let data = file(len);
        let o = run("x.dat", &data, 100, clean);
        assert!(o.ended);
        assert_eq!(o.received, data);
        assert_eq!(o.sender_transmissions, (len + 507) / 508 + 2);
        assert_eq!(o.timeouts, 0);
    }
}

#[test]
fn half_of_all_datagrams_lost() {
    // every datagram but the handshake ACK is lost with probability 1/2
    let data = file(4096);
    let o = run("c.bin", &data, 100, |from_sender, i| (!(!from_sender && i == 0) && rand::random_bool(0.5), None, false));
    assert!(o.ended);
    assert_eq!(o.received, data);
    assert_eq!(o.data_counter, 4096);
}

#[test]
fn lost_handshake_ack_stalls_the_session() {
    // a repeated SYN is ignored once a session runs, so the sender never
    // learns that its SYN arrived and gives up after its budget
    let data = file(100);
    let o = run("g.bin", &data, 5, |from_sender, i| (!from_sender && i == 0, None, false));
    assert!(o.ended);
    assert_eq!(o.opened, vec!["g.bin".to_string()]);
    assert!(o.received.is_empty());
    assert_eq!(o.sender_transmissions, 6);
}

#[test]
fn first_three_datagrams_corrupted() {
    let data = file(100);
    let o = run("d.bin", &data, 100, |from_sender, i| {
        if from_sender && i < 3 {
            (false, Some((4, 0)), false)
        } else {
            (false, None, false)
        }
    });
    assert!(o.ended);
    assert_eq!(o.received, data);
    // the SYN went out four times: three corrupted copies were ignored
    assert_eq!(o.frames[0..4].iter().filter(|fr| fr.kind == "SYN").count(), 4);
    assert_eq!(o.timeouts, 3);
    assert_eq!(o.frames[4], f(false, "ACK", 0, 0));
}

#[test]
fn duplicated_datagrams_are_written_once() {
    let data = file(3000);
    let o = run("e.bin", &data, 100, |_, _| (false, None, true));
    assert!(o.ended);
    assert_eq!(o.received, data);
    assert_eq!(o.opened.len(), 1);
}

#[test]
fn unreachable_receiver_ends_after_budget() {
    let data = file(2000);
    let max = 7u8;
    let o = run("f.bin", &data, max, |_, _| (true, None, false));
    assert!(o.ended);
    assert_eq!(o.data_counter, 0);
    assert_eq!(o.sender_transmissions, max as usize + 1);
    assert_eq!(o.timeouts, max as usize + 1);
    assert!(o.received.is_empty());
}

#[test]
fn sender_ignores_wrong_acks_and_stray_packets() {
    let s = SndFsm::init(3).wrap();
    let (s, _) = s.goto(SndEvent::InitSYN, b"n".to_vec(), false).unwrap();
    // ACK with the wrong sequence bit, a corrupt ACK, an undecodable datagram
    let wrong = Packet::empty_frame(true, Flag::ACK);
    let (s, o) = s.goto(SndEvent::RecvPck(Some(wrong)), vec![], false).unwrap();
    assert!(o.send.is_none());
    assert_eq!(next_event_kind(&s), SndNeed::AckOrTimeout);
    let mut bytes = Packet::empty_frame(false, Flag::ACK).encode().to_vec();
    bytes[1] ^= 0x01;
    let corrupt = Packet::decode(bytes).unwrap();
    let (s, o) = s.goto(SndEvent::RecvPck(Some(corrupt)), vec![], false).unwrap();
    assert!(o.send.is_none());
    let (s, _) = s.goto(SndEvent::RecvPck(None), vec![], false).unwrap();
    let (s, o) = s.goto(SndEvent::RecvPck(Some(Packet::empty_frame(false, Flag::ACK))), vec![], false).unwrap();
    assert_eq!(o.timer, TimerCmd::Stop);
    assert_eq!(next_event_kind(&s), SndNeed::FileData);
}

#[test]
fn retransmission_resends_the_same_bytes() {
    let s = SndFsm::init(2).wrap();
    let (s, first) = s.goto(SndEvent::InitSYN, b"same".to_vec(), false).unwrap();
    let (s, again) = s.goto(SndEvent::Timeout, vec![], false).unwrap();
    assert_eq!(first.send, again.send);
    let (s, _) = s.goto(SndEvent::Timeout, vec![], false).unwrap();
    let (s, last) = s.goto(SndEvent::Timeout, vec![], false).unwrap();
    assert!(last.send.is_none());
    assert!(s.is_end());
}

#[test]
fn overlong_file_name_is_rejected_by_sender() {
    let name = vec![b'a'; 509];
    let s = SndFsm::init(3).wrap();
    assert!(s.goto(SndEvent::InitSYN, name, false).is_err());
}

#[test]
fn finack_ends_when_no_data_is_left() {
    // a FINACK with the awaited number ends the session once the file is
    // exhausted, whatever frame is in flight
    let s = SndFsm::init(3).wrap();
    let (s, _) = s.goto(SndEvent::InitSYN, b"n".to_vec(), false).unwrap();
    let finack0 = || Packet::empty_frame(false, Flag::FINACK);
    let (s, o) = s.goto(SndEvent::RecvPck(Some(finack0())), vec![], true).unwrap();
    assert!(!s.is_end());
    assert!(o.send.is_none());
    let (s, o) = s.goto(SndEvent::RecvPck(Some(finack0())), vec![], false).unwrap();
    assert!(s.is_end());
    assert!(o.send.is_none());
    assert_eq!(next_event_kind(&s), SndNeed::Done);

    // the usual way: FIN, then its FINACK
    let s = SndFsm::init(3).wrap();
    let (s, _) = s.goto(SndEvent::InitSYN, b"n".to_vec(), false).unwrap();
    let (s, _) = s.goto(SndEvent::RecvPck(Some(Packet::empty_frame(false, Flag::ACK))), vec![], false).unwrap();
    let (s, fin) = s.goto(SndEvent::DataAvailable(false), vec![], false).unwrap();
    let fin = Packet::decode(fin.send.unwrap()).unwrap();
    assert!(fin.is_FIN() && fin.n() == 1);
    // a FINACK with the wrong number is ignored
    let (s, _) = s.goto(SndEvent::RecvPck(Some(finack0())), vec![], false).unwrap();
    assert!(!s.is_end());
    let (s, _) = s.goto(SndEvent::RecvPck(Some(Packet::empty_frame(true, Flag::FINACK))), vec![], false).unwrap();
    assert!(s.is_end());
}

#[test]
fn receiver_session_edges() {
    let r = rcv::FsmWrap::wrap(RcvFsm::init());
    // a DATA frame before any SYN is ignored
    let (r, o) = r.goto(RcvEvent::RecvPck(Some(Packet::new(true, Flag::Data, vec![1]).unwrap()))).unwrap();
    assert!(o.send.is_none() && o.write.is_none() && !r.in_session());
    // a SYN with sequence bit 1 is ignored
    let (r, o) = r.goto(RcvEvent::RecvPck(Some(Packet::new(true, Flag::SYN, b"x".to_vec()).unwrap()))).unwrap();
    assert!(o.open_file.is_none() && !r.in_session());
    // a stray FIN is answered, nothing is written
    let (r, o) = r.goto(RcvEvent::RecvPck(Some(Packet::empty_frame(true, Flag::FIN)))).unwrap();
    let ans = Packet::decode(o.send.unwrap()).unwrap();
    assert!(ans.is_FINACK() && ans.n() == 1 && o.write.is_none() && !r.in_session());
    // SYN opens a session
    let (r, o) = r.goto(RcvEvent::RecvPck(Some(Packet::new(false, Flag::SYN, b"x".to_vec()).unwrap()))).unwrap();
    assert_eq!(o.open_file, Some("x".to_string()));
    assert_eq!(o.timer, TimerCmd::Start);
    assert!(r.in_session());
    // DATA with the same bit as the last ACK is a repeat: the ACK is resent
    let (r, o) = r.goto(RcvEvent::RecvPck(Some(Packet::new(false, Flag::Data, vec![5]).unwrap()))).unwrap();
    assert!(o.write.is_none());
    assert!(Packet::decode(o.send.unwrap()).unwrap().is_ACK());
    // new DATA is written and acknowledged
    let (r, o) = r.goto(RcvEvent::RecvPck(Some(Packet::new(true, Flag::Data, vec![6, 7]).unwrap()))).unwrap();
    assert_eq!(o.write, Some(vec![6, 7]));
    // a timeout closes the file and ends the session
    let (r, o) = r.goto(RcvEvent::ConnectionTimeout).unwrap();
    assert!(o.close_file && !r.in_session());
}

#[test]
fn receiver_refuses_unsafe_or_invalid_names() {
    for name in [&b"../etc/passwd"[..], b"a/b", b"..", b".", b"", b"CON", b"nul.txt", b"a\0b", &[0xff, 0xfe]] {
        let r = rcv::FsmWrap::wrap(RcvFsm::init());
        let syn = Packet::new(false, Flag::SYN, name.to_vec()).unwrap();
        assert!(r.goto(RcvEvent::RecvPck(Some(syn))).is_err(), "{:?}", name);
    }
}

#[test]
fn one_lost_data_frame_costs_one_retransmission() {
    let data = file(1000);
    let o = run("h.bin", &data, 100, |from_sender, i| (from_sender && i == 1, None, false));
    assert!(o.ended);
    assert_eq!(o.received, data);
    assert_eq!(o.timeouts, 1);
    assert_eq!(o.sender_transmissions, (1000 + 507) / 508 + 2 + 1);
}

#[test]
fn one_lost_ack_costs_one_retransmission() {
    let data = file(1000);
    let o = run("i.bin", &data, 100, |from_sender, i| (!from_sender && i == 1, None, false));
    assert!(o.ended);
    assert_eq!(o.received, data);
    assert_eq!(o.timeouts, 1);
    assert_eq!(o.sender_transmissions, (1000 + 507) / 508 + 2 + 1);
}
