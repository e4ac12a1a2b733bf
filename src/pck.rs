//! Packet codec.
//!
//! Layout of a datagram:
//!
//! ```text
//!  byte 0     N | kind (3 bits) | 0 0 0 0
//!  byte 1     CRC-8/I-432-1 over byte 0, the length field and the payload
//!  bytes 2-3  payload length, big endian
//!  bytes 4..  payload
//! ```
//!
//! Kind bits: SYN = 001, FIN = 010, ACK = 100, FINACK = 110, DATA = 000.

use vstd::prelude::*;

verus! {

/// Largest datagram, header included.
pub const MAX_PAYLOAD_SIZE: usize = 512;

/// Length of the fixed header.
pub const HEADER_LEN: usize = 4;

/// Frame kind.
#[allow(clippy::upper_case_acronyms)]
#[derive(PartialEq, Eq, Clone, Copy, Debug, Structural)]
pub enum Flag {
    SYN,
    ACK,
    FIN,
    FINACK,
    Data,
}

/// Errors reported by the codec.
#[derive(PartialEq, Eq, Clone, Copy, Debug, Structural)]
pub enum PacketError {
    /// The payload handed to `Packet::new` is longer than the limit.
    PayloadTooLarge,
    /// Fewer bytes than a header.
    ShortBuffer,
    /// One of the four reserved low bits of byte 0 is set.
    ReservedBitsSet,
    /// Bits 6-4 of byte 0 name no frame kind.
    UnknownKind,
    /// The length field announces more payload than the buffer holds.
    PayloadMissing,
}

/// Bits 6-4 of the flag byte for a kind.
pub open spec fn kind_bits(f: Flag) -> u8 {
    match f {
        Flag::SYN => 0x10,
        Flag::ACK => 0x40,
        Flag::FIN => 0x20,
        Flag::FINACK => 0x60,
        Flag::Data => 0x00,
    }
}

/// Byte 0 of a packet: the sequence bit in the MSB, the kind below it.
pub open spec fn flag_byte(f: Flag, n: bool) -> u8 {
    (kind_bits(f) + if n { 0x80u8 } else { 0u8 }) as u8
}

/// The kind named by bits 6-4 of a byte, if any.
pub open spec fn kind_of_byte(b: u8) -> Option<Flag> {
    let k = b & 0x70u8;
    if k == 0x10 {
        Some(Flag::SYN)
    } else if k == 0x40 {
        Some(Flag::ACK)
    } else if k == 0x20 {
        Some(Flag::FIN)
    } else if k == 0x60 {
        Some(Flag::FINACK)
    } else if k == 0x00 {
        Some(Flag::Data)
    } else {
        None
    }
}

/// What byte 0 of a datagram says: an error, or the kind and sequence bit.
pub open spec fn parse_flag_byte(b: u8) -> Result<(Flag, bool), PacketError> {
    if b & 0x0fu8 != 0 {
        Err(PacketError::ReservedBitsSet)
    } else {
        match kind_of_byte(b) {
            Some(f) => Ok((f, b & 0x80u8 != 0)),
            None => Err(PacketError::UnknownKind),
        }
    }
}

/// A 16-bit length in big-endian order.
pub open spec fn be16(len: nat) -> Seq<u8> {
    seq![(len / 256) as u8, (len % 256) as u8]
}

/// The value of two big-endian bytes.
pub open spec fn from_be16(hi: u8, lo: u8) -> nat {
    (hi as nat) * 256 + (lo as nat)
}

/// CRC-8/I-432-1 of a byte sequence (width 8, poly 0x07, init 0, no
/// reflection, xorout 0x55).
pub uninterp spec fn crc8_i432(data: Seq<u8>) -> u8;

/// The bytes the checksum covers: flag byte, length field, payload.
pub open spec fn checksum_input(n: bool, f: Flag, payload: Seq<u8>) -> Seq<u8> {
    seq![flag_byte(f, n)] + be16(payload.len()) + payload
}

/// Abstract content of a packet.
pub ghost struct PacketView {
    pub n: bool,
    pub flag: Flag,
    pub checksum: u8,
    pub payload: Seq<u8>,
}

impl PacketView {
    /// The checksum the content calls for.
    pub open spec fn expected_checksum(self) -> u8 {
        crc8_i432(checksum_input(self.n, self.flag, self.payload))
    }

    /// The stored checksum disagrees with the recomputed one.
    pub open spec fn is_corrupt(self) -> bool {
        self.checksum != self.expected_checksum()
    }

    /// Canonical wire bytes.
    pub open spec fn wire(self) -> Seq<u8> {
        seq![flag_byte(self.flag, self.n), self.checksum] + be16(self.payload.len()) + self.payload
    }

    /// Sequence bit as 0 or 1.
    pub open spec fn seq_n(self) -> u8 {
        if self.n { 1 } else { 0 }
    }
}

/// The packet that `Packet::new(n, f, payload)` builds.
pub open spec fn built(n: bool, f: Flag, payload: Seq<u8>) -> PacketView {
    PacketView { n, flag: f, checksum: crc8_i432(checksum_input(n, f, payload)), payload }
}

/// What `Packet::decode` makes of a byte sequence.
pub open spec fn parse(bytes: Seq<u8>) -> Result<PacketView, PacketError> {
    if bytes.len() < 4 {
        Err(PacketError::ShortBuffer)
    } else {
        match parse_flag_byte(bytes[0]) {
            Err(e) => Err(e),
            Ok((f, n)) => {
                let len = from_be16(bytes[2], bytes[3]);
                if bytes.len() < 4 + len {
                    Err(PacketError::PayloadMissing)
                } else {
                    Ok(
                        PacketView {
                            n,
                            flag: f,
                            checksum: bytes[1],
                            payload: bytes.subrange(4, 4 + len as int),
                        },
                    )
                }
            }
        }
    }
}

/// Byte 0 reads back as the kind and sequence bit it was made from.
pub proof fn lemma_flag_byte_round_trip(f: Flag, n: bool)
    ensures
        parse_flag_byte(flag_byte(f, n)) == Ok::<(Flag, bool), PacketError>((f, n)),
{
    let b = flag_byte(f, n);
    let k = kind_bits(f);
    let m: u8 = if n { 0x80 } else { 0 };
    assert(k == 0x10 || k == 0x40 || k == 0x20 || k == 0x60 || k == 0x00);
    assert(m == 0x80 || m == 0);
    assert(b == (k + m) as u8);
    assert(((k + m) as u8) & 0x0f == 0 && ((k + m) as u8) & 0x70 == k && (((k + m) as u8) & 0x80
        != 0) == (m == 0x80)) by (bit_vector)
        requires
            k == 0x10 || k == 0x40 || k == 0x20 || k == 0x60 || k == 0x00,
            m == 0x80 || m == 0,
    ;
}

/// A flag byte that parses is the byte of what it parses to.
pub proof fn lemma_flag_byte_inverse(b: u8)
    requires
        parse_flag_byte(b) is Ok,
    ensures
        flag_byte(parse_flag_byte(b)->Ok_0.0, parse_flag_byte(b)->Ok_0.1) == b,
{
    let (f, n) = parse_flag_byte(b)->Ok_0;
    let k = kind_bits(f);
    assert(b & 0x0f == 0);
    assert(b & 0x70 == k);
    assert(n == (b & 0x80 != 0));
    if n {
        assert(b == ((k + 0x80u8) as u8)) by (bit_vector)
            requires
                b & 0x0f == 0,
                b & 0x70 == k,
                b & 0x80 != 0,
        ;
    } else {
        assert(b == k) by (bit_vector)
            requires
                b & 0x0f == 0,
                b & 0x70 == k,
                b & 0x80 == 0,
        ;
    }
}

/// A length field reads back as the length it was made from.
pub proof fn lemma_be16_round_trip(len: nat)
    requires
        len <= 0xffff,
    ensures
        from_be16(be16(len)[0], be16(len)[1]) == len,
{
}

/// Decoding the canonical bytes of a packet gives the packet back.
pub proof fn lemma_parse_wire(v: PacketView)
    requires
        v.payload.len() <= 0xffff,
    ensures
        parse(v.wire()) == Ok::<PacketView, PacketError>(v),
{
    let w = v.wire();
    lemma_flag_byte_round_trip(v.flag, v.n);
    lemma_be16_round_trip(v.payload.len());
    assert(w[0] == flag_byte(v.flag, v.n));
    assert(w[1] == v.checksum);
    assert(w[2] == be16(v.payload.len())[0]);
    assert(w[3] == be16(v.payload.len())[1]);
    assert(w.subrange(4, 4 + v.payload.len() as int) =~= v.payload);
}

/// Two packets with the same canonical bytes are the same packet.
pub proof fn lemma_wire_injective(a: PacketView, b: PacketView)
    requires
        a.payload.len() <= 0xffff,
        b.payload.len() <= 0xffff,
        a.wire() == b.wire(),
    ensures
        a == b,
{
    lemma_parse_wire(a);
    lemma_parse_wire(b);
}

/// Every packet that can be built survives encoding and decoding unchanged,
/// and is not corrupt.
pub proof fn lemma_build_round_trip(n: bool, kind: Flag, payload: Seq<u8>)
    requires
        payload.len() <= 508,
    ensures
        parse(built(n, kind, payload).wire()) == Ok::<PacketView, PacketError>(built(n, kind, payload)),
        !built(n, kind, payload).is_corrupt(),
{
    lemma_parse_wire(built(n, kind, payload));
}

/// A datagram whose reserved low nibble of byte 0 is not zero is rejected.
pub proof fn lemma_reserved_bits_rejected(bytes: Seq<u8>)
    requires
        bytes.len() > 0,
        bytes[0] & 0x0fu8 != 0,
    ensures
        parse(bytes) is Err,
{
}

/// A datagram whose length field announces more payload than it carries is
/// rejected.
pub proof fn lemma_missing_payload_rejected(bytes: Seq<u8>)
    requires
        bytes.len() >= 4,
        from_be16(bytes[2], bytes[3]) > bytes.len() - 4,
    ensures
        parse(bytes) is Err,
{
}

/// Relies on crc's `Crc::<u8>::checksum` with the catalogue algorithm
/// `CRC_8_I_432_1`: the result depends on the bytes alone.
#[verifier::external_body]
fn crc8_checksum(data: &[u8]) -> (r: u8)
    ensures
        r == crc8_i432(data@),
{
    crc::Crc::<u8>::new(&crc::CRC_8_I_432_1).checksum(data)
}

/// A packet together with its encoded bytes.
#[derive(Debug)]
pub struct Packet {
    n: bool,
    flag: Flag,
    checksum: u8,
    payload_len: u16,
    /// The canonical wire bytes: header, then payload.
    buf: Vec<u8>,
}

impl View for Packet {
    type V = PacketView;

    closed spec fn view(&self) -> PacketView {
        PacketView {
            n: self.n,
            flag: self.flag,
            checksum: self.checksum,
            payload: self.buf@.subrange(4, self.buf@.len() as int),
        }
    }
}

impl Packet {
    #[verifier::type_invariant]
    closed spec fn inv(self) -> bool {
        &&& self.buf@.len() == 4 + self.payload_len
        &&& self.buf@[0] == flag_byte(self.flag, self.n)
        &&& self.buf@[1] == self.checksum
        &&& self.buf@.subrange(2, 4) == be16(self.payload_len as nat)
    }

    proof fn lemma_buf_is_wire(&self)
        requires
            self.inv(),
        ensures
            self.buf@ == self@.wire(),
            self@.payload.len() == self.payload_len,
    {
        let w = self@.wire();
        assert(self.buf@ =~= w) by {
            assert(self.buf@ =~= self.buf@.subrange(0, 2) + self.buf@.subrange(2, 4)
                + self.buf@.subrange(4, self.buf@.len() as int));
        }
    }

    /// Largest payload a packet may carry.
    pub fn max_pck_payload_size() -> (r: usize)
        ensures
            r == 508,
    {
        MAX_PAYLOAD_SIZE - HEADER_LEN
    }

    /// Builds a packet of kind `f` with sequence bit `n`; fails when the
    /// payload exceeds the limit.
    pub fn new(n: bool, f: Flag, p: Vec<u8>) -> (r: Result<Packet, PacketError>)
        ensures
            p@.len() > 508 <==> r == Err::<Packet, PacketError>(PacketError::PayloadTooLarge),
            p@.len() <= 508 <==> r is Ok,
            r matches Ok(pk) ==> pk@ == built(n, f, p@),
    {
        if p.len() > Packet::max_pck_payload_size() {
            return Err(PacketError::PayloadTooLarge);
        }
        Ok(Packet::build(n, f, p))
    }

    /// A copy of this packet.
    pub fn duplicate(&self) -> (r: Packet)
        ensures
            r@ == self@,
    {
        proof {
            use_type_invariant(self);
        }
        Packet {
            n: self.n,
            flag: self.flag,
            checksum: self.checksum,
            payload_len: self.payload_len,
            buf: vstd::slice::slice_to_vec(self.buf.as_slice()),
        }
    }

    /// A packet with an empty payload (ACK, FIN, FINACK frames).
    pub fn empty_frame(n: bool, f: Flag) -> (r: Packet)
        ensures
            r@ == built(n, f, Seq::empty()),
    {
        let r = Packet::build(n, f, Vec::new());
        assert(r@.payload =~= Seq::<u8>::empty());
        r
    }

    fn build(n: bool, f: Flag, p: Vec<u8>) -> (r: Packet)
        requires
            p@.len() <= 508,
        ensures
            r@ == built(n, f, p@),
    {
        let p_l: u16 = p.len() as u16;
        let fb = f.to_byte(n);
        let checksum = Packet::calc_checksum_crc_8_i_423_1(fb, p_l, p.as_slice());
        let mut buf: Vec<u8> = Vec::with_capacity(HEADER_LEN + p.len());
        buf.push(fb);
        buf.push(checksum);
        buf.push((p_l / 256) as u8);
        buf.push((p_l % 256) as u8);
        let mut i: usize = 0;
        while i < p.len()
            invariant
                i <= p@.len(),
                buf@.len() == 4 + i,
                buf@[0] == fb,
                buf@[1] == checksum,
                buf@.subrange(2, 4) == be16(p_l as nat),
                buf@.subrange(4, 4 + i as int) == p@.subrange(0, i as int),
            decreases p@.len() - i,
        {
            buf.push(p[i]);
            i += 1;
            assert(buf@.subrange(4, 4 + i as int) =~= p@.subrange(0, i as int));
            assert(buf@.subrange(2, 4) =~= be16(p_l as nat));
        }
        assert(buf@.subrange(4, buf@.len() as int) =~= p@);
        Packet { n, flag: f, checksum, payload_len: p_l, buf }
    }

    /// Sequence bit as 0 or 1.
    pub fn n(&self) -> (r: u8)
        ensures
            r == self@.seq_n(),
    {
        if self.n {
            1
        } else {
            0
        }
    }

    /// The payload bytes.
    pub fn payload(&self) -> (r: &[u8])
        ensures
            r@ == self@.payload,
    {
        proof {
            use_type_invariant(self);
        }
        vstd::slice::slice_subrange(self.buf.as_slice(), HEADER_LEN, self.buf.len())
    }

    #[allow(non_snake_case)]
    pub fn is_SYN(&self) -> (r: bool)
        ensures
            r == (self@.flag == Flag::SYN),
    {
        self.flag == Flag::SYN
    }

    #[allow(non_snake_case)]
    pub fn is_not_SYN(&self) -> (r: bool)
        ensures
            r == (self@.flag != Flag::SYN),
    {
        !self.is_SYN()
    }

    #[allow(non_snake_case)]
    pub fn is_ACK(&self) -> (r: bool)
        ensures
            r == (self@.flag == Flag::ACK),
    {
        self.flag == Flag::ACK
    }

    #[allow(non_snake_case)]
    pub fn is_FIN(&self) -> (r: bool)
        ensures
            r == (self@.flag == Flag::FIN),
    {
        self.flag == Flag::FIN
    }

    #[allow(non_snake_case)]
    pub fn is_Data(&self) -> (r: bool)
        ensures
            r == (self@.flag == Flag::Data),
    {
        self.flag == Flag::Data
    }

    #[allow(non_snake_case)]
    pub fn is_FINACK(&self) -> (r: bool)
        ensures
            r == (self@.flag == Flag::FINACK),
    {
        self.flag == Flag::FINACK
    }

    /// The stored checksum matches the recomputed one.
    pub fn notcorrupt(&self) -> (r: bool)
        ensures
            r == !self@.is_corrupt(),
    {
        self.checksum == self.calc_checksum()
    }

    /// The stored checksum differs from the recomputed one.
    pub fn corrupt(&self) -> (r: bool)
        ensures
            r == self@.is_corrupt(),
    {
        !self.notcorrupt()
    }

    /// Recomputes the checksum over flag byte, length field and payload.
    pub fn calc_checksum(&self) -> (r: u8)
        ensures
            r == self@.expected_checksum(),
    {
        proof {
            use_type_invariant(self);
            self.lemma_buf_is_wire();
        }
        Packet::calc_checksum_crc_8_i_423_1(self.flag.to_byte(self.n), self.payload_len, self.payload())
    }

    fn calc_checksum_crc_8_i_423_1(f_and_n: u8, p_l: u16, p: &[u8]) -> (r: u8)
        requires
            p@.len() == p_l,
        ensures
            r == crc8_i432(seq![f_and_n] + be16(p_l as nat) + p@),
    {
        let mut data: Vec<u8> = Vec::with_capacity(3 + p.len());
        data.push(f_and_n);
        data.push((p_l / 256) as u8);
        data.push((p_l % 256) as u8);
        let mut i: usize = 0;
        while i < p.len()
            invariant
                i <= p@.len(),
                data@ == seq![f_and_n] + be16(p_l as nat) + p@.subrange(0, i as int),
            decreases p@.len() - i,
        {
            data.push(p[i]);
            i += 1;
            assert(data@ =~= seq![f_and_n] + be16(p_l as nat) + p@.subrange(0, i as int));
        }
        assert(p@.subrange(0, p@.len() as int) =~= p@);
        crc8_checksum(data.as_slice())
    }

    /// The canonical wire bytes.
    pub fn encode(&self) -> (r: &[u8])
        ensures
            r@ == self@.wire(),
            self@.payload.len() <= 0xffff,
    {
        proof {
            use_type_invariant(self);
            self.lemma_buf_is_wire();
        }
        self.buf.as_slice()
    }

    /// Parses a datagram. The checksum is not checked here: see `corrupt`.
    /// Bytes past the announced payload are dropped.
    pub fn decode(buf: Vec<u8>) -> (r: Result<Packet, PacketError>)
        ensures
            r matches Ok(pk) ==> parse(buf@) == Ok::<PacketView, PacketError>(pk@),
            r matches Err(e) ==> parse(buf@) == Err::<PacketView, PacketError>(e),
    {
        let ghost bytes = buf@;
        let mut buf = buf;
        if buf.len() < HEADER_LEN {
            return Err(PacketError::ShortBuffer);
        }
        let (f, n) = match Flag::byte_to_flag_and_n(buf[0]) {
            Ok(v) => v,
            Err(e) => {
                return Err(e);
            },
        };
        let checksum = buf[1];
        let payload_len: u16 = (buf[2] as u16) * 256 + (buf[3] as u16);
        if buf.len() < HEADER_LEN + payload_len as usize {
            return Err(PacketError::PayloadMissing);
        }
        buf.truncate(HEADER_LEN + payload_len as usize);
        proof {
            lemma_flag_byte_inverse(bytes[0]);
            assert(from_be16(bytes[2], bytes[3]) == payload_len);
            assert(buf@ =~= bytes.subrange(0, 4 + payload_len as int));
            assert(buf@.subrange(2, 4) =~= be16(payload_len as nat));
            assert(buf@.subrange(4, buf@.len() as int) =~= bytes.subrange(4, 4 + payload_len as int));
        }
        Ok(Packet { n, flag: f, checksum, payload_len, buf })
    }
}

impl PartialEq for Packet {
    fn eq(&self, other: &Packet) -> (r: bool) {
        proof {
            use_type_invariant(self);
            use_type_invariant(other);
            self.lemma_buf_is_wire();
            other.lemma_buf_is_wire();
        }
        let a = self.encode();
        let b = other.encode();
        if a.len() != b.len() {
            return false;
        }
        let mut i: usize = 0;
        while i < a.len()
            invariant
                a@ == self@.wire(),
                b@ == other@.wire(),
                a@.len() == b@.len(),
                i <= a@.len(),
                a@.subrange(0, i as int) == b@.subrange(0, i as int),
            decreases a@.len() - i,
        {
            if a[i] != b[i] {
                assert(a@[i as int] != b@[i as int]);
                return false;
            }
            i += 1;
            assert(a@.subrange(0, i as int) =~= b@.subrange(0, i as int));
        }
        assert(a@ =~= a@.subrange(0, i as int));
        assert(b@ =~= b@.subrange(0, i as int));
        proof {
            lemma_wire_injective(self@, other@);
        }
        true
    }
}

impl vstd::std_specs::cmp::PartialEqSpecImpl for Packet {
    open spec fn obeys_eq_spec() -> bool {
        true
    }

    open spec fn eq_spec(&self, other: &Packet) -> bool {
        self@ == other@
    }
}

impl Eq for Packet {
}

impl Clone for Packet {
    /// Same as [`Packet::duplicate`], whose contract states the copy.
    fn clone(&self) -> Packet {
        self.duplicate()
    }
}

impl Flag {
    /// Byte 0 of a packet of this kind with sequence bit `n`.
    pub fn to_byte(&self, n: bool) -> (r: u8)
        ensures
            r == flag_byte(*self, n),
    {
        let f: u8 = match self {
            Flag::SYN => 0x10,
            Flag::ACK => 0x40,
            Flag::FIN => 0x20,
            Flag::FINACK => 0x60,
            Flag::Data => 0x00,
        };
        if n {
            f + 0x80
        } else {
            f
        }
    }

    /// Reads kind and sequence bit from byte 0 of a datagram.
    pub fn byte_to_flag_and_n(b: u8) -> (r: Result<(Flag, bool), PacketError>)
        ensures
            r == parse_flag_byte(b),
    {
        if b & 0x0f != 0 {
            return Err(PacketError::ReservedBitsSet);
        }
        let n = b & 0x80 != 0;
        let k = b & 0x70;
        if k == 0x10 {
            Ok((Flag::SYN, n))
        } else if k == 0x40 {
            Ok((Flag::ACK, n))
        } else if k == 0x20 {
            Ok((Flag::FIN, n))
        } else if k == 0x60 {
            Ok((Flag::FINACK, n))
        } else if k == 0x00 {
            Ok((Flag::Data, n))
        } else {
            Err(PacketError::UnknownKind)
        }
    }
}

} // verus!
