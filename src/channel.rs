//! Fault model of the unreliable datagram channel.
//!
//! Every outgoing datagram may be lost, may have exactly one bit flipped,
//! and may be sent twice. The driver draws the three outcomes with the
//! configured probabilities; this module turns them into the datagrams that
//! actually go on the wire.

use vstd::prelude::*;
use crate::pck::{PacketView, parse, from_be16, be16, flag_byte, lemma_flag_byte_round_trip, lemma_be16_round_trip, lemma_parse_wire};

verus! {

/// `bytes` with bit `bit` of byte `i` inverted.
pub open spec fn flip_bit(bytes: Seq<u8>, i: int, bit: u8) -> Seq<u8> {
    bytes.update(i, bytes[i] ^ ((1u8 << bit) as u8))
}

/// Inverts bit `bit` of byte `i`.
pub fn flip_bit_in_place(buf: &mut Vec<u8>, i: usize, bit: u8)
    requires
        i < old(buf)@.len(),
        bit < 8,
    ensures
        final(buf)@ == flip_bit(old(buf)@, i as int, bit),
{
    let mask: u8 = 1u8 << bit;
    let b = buf[i];
    buf.set(i, b ^ mask);
}

/// The outcome of the three draws made for one send.
#[derive(PartialEq, Eq, Clone, Copy, Debug, Structural)]
pub struct Faults {
    /// Drop the datagram.
    pub lose: bool,
    /// Flip one bit at a random position.
    pub corrupt: bool,
    /// Send the datagram twice.
    pub duplicate: bool,
}

/// How many datagrams leave for one send.
pub open spec fn copies(lose: bool, duplicate: bool) -> nat {
    if lose {
        0
    } else if duplicate {
        2
    } else {
        1
    }
}

/// The datagrams to put on the wire: none when lost, else `bytes` (with the
/// bit at `flip` inverted, if given), once or twice.
pub fn emit_datagrams(bytes: Vec<u8>, lose: bool, flip: Option<(usize, u8)>, duplicate: bool) -> (r: Vec<Vec<u8>>)
    requires
        flip matches Some((i, b)) ==> i < bytes@.len() && b < 8,
    ensures
        r@.len() == copies(lose, duplicate),
        forall|k: int|
            0 <= k < r@.len() ==> #[trigger] r@[k]@ == match flip {
                Some((i, b)) => flip_bit(bytes@, i as int, b),
                None => bytes@,
            },
{
    let mut out: Vec<Vec<u8>> = Vec::new();
    if lose {
        return out;
    }
    let mut pkt = bytes;
    match flip {
        Some((i, b)) => flip_bit_in_place(&mut pkt, i, b),
        None => {},
    }
    if duplicate {
        out.push(vstd::slice::slice_to_vec(pkt.as_slice()));
    }
    out.push(pkt);
    out
}

/// Relies on rand's `random_range`: a value drawn from `0..bound`, which
/// panics on an empty range.
#[verifier::external_body]
fn random_below(bound: usize) -> (r: usize)
    requires
        bound > 0,
    ensures
        r < bound,
{
    rand::random_range(0..bound)
}

/// The datagrams that leave for one send of `bytes` under `faults`; the
/// flipped bit, if any, is drawn uniformly.
pub fn unreliable_datagrams(bytes: Vec<u8>, faults: Faults) -> (r: Vec<Vec<u8>>)
    ensures
        r@.len() == copies(faults.lose, faults.duplicate),
        forall|k: int| 0 <= k < r@.len() ==> #[trigger] r@[k]@ == r@[0]@,
        r@.len() > 0 && (!faults.corrupt || bytes@.len() == 0) ==> r@[0]@ == bytes@,
        r@.len() > 0 && faults.corrupt && bytes@.len() > 0 ==> exists|i: int, bit: u8|
            0 <= i < bytes@.len() && bit < 8 && #[trigger] flip_bit(bytes@, i, bit) == r@[0]@,
{
    let flip = if faults.corrupt && !faults.lose && bytes.len() > 0 {
        let i = random_below(bytes.len());
        let b = random_below(8) as u8;
        Some((i, b))
    } else {
        None
    };
    let r = emit_datagrams(bytes, faults.lose, flip, faults.duplicate);
    proof {
        if r@.len() > 0 && faults.corrupt && bytes@.len() > 0 {
            let (i, b) = flip->Some_0;
            assert(flip_bit(bytes@, i as int, b) == r@[0]@);
        }
    }
    r
}

/// A single flipped bit of an intact packet is never taken for an intact
/// packet when it hits the checksum byte, the reserved low nibble of byte 0,
/// or a clear bit of the length field: the result fails to decode or decodes
/// as corrupt.
pub proof fn lemma_flip_detected(v: PacketView, i: int, bit: u8)
    requires
        v.payload.len() <= 508,
        !v.is_corrupt(),
        bit < 8,
        i == 1 || (i == 0 && bit < 4) || ((i == 2 || i == 3) && (v.wire()[i] >> bit) & 1u8 == 0),
    ensures
        parse(flip_bit(v.wire(), i, bit)) is Err || parse(flip_bit(v.wire(), i, bit))->Ok_0.is_corrupt(),
{
    let w = v.wire();
    let f = flip_bit(w, i, bit);
    lemma_parse_wire(v);
    lemma_flag_byte_round_trip(v.flag, v.n);
    lemma_be16_round_trip(v.payload.len());
    let x = w[i];
    let y = f[i];
    assert(y == x ^ ((1u8 << bit) as u8));
    if i == 1 {
        assert(y != x) by (bit_vector)
            requires
                y == x ^ ((1u8 << bit) as u8),
                bit < 8,
        ;
        assert(f[0] == w[0] && f[2] == w[2] && f[3] == w[3]);
        assert(f.subrange(4, 4 + v.payload.len() as int) =~= v.payload);
    } else if i == 0 {
        let fb = flag_byte(v.flag, v.n);
        assert(x == fb);
        assert(fb & 0x0fu8 == 0);
        assert(y & 0x0fu8 != 0) by (bit_vector)
            requires
                y == x ^ ((1u8 << bit) as u8),
                x & 0x0fu8 == 0,
                bit < 4,
        ;
    } else {
        assert(y > x) by (bit_vector)
            requires
                y == x ^ ((1u8 << bit) as u8),
                (x >> bit) & 1u8 == 0,
                bit < 8,
        ;
        assert(from_be16(f[2], f[3]) > from_be16(w[2], w[3])) by (nonlinear_arith)
            requires
                (i == 2 && f[2] > w[2] && f[3] == w[3]) || (i == 3 && f[2] == w[2] && f[3] > w[3]),
        {
        }
        assert(w[2] == be16(v.payload.len())[0] && w[3] == be16(v.payload.len())[1]);
    }
}

} // verus!
