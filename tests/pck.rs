use secsnail::pck::{Flag, Packet, PacketError};

#[test]
fn calc_checksum() {
    let pck1 = Packet::new(false, Flag::SYN, vec![b'a']).unwrap();
    let pck2 = Packet::new(true, Flag::SYN, vec![b'a']).unwrap();
    let pck3 = Packet::new(false, Flag::SYN, vec![b'a']).unwrap();
    let pck4 = Packet::new(false, Flag::SYN, vec![b'a', b'b']).unwrap();

    assert_eq!(pck1.calc_checksum(), pck3.calc_checksum());
    assert_ne!(pck1.calc_checksum(), pck2.calc_checksum());
    assert_ne!(pck1.calc_checksum(), pck4.calc_checksum());
}

#[test]
fn test_encode() {
    let pck1 = Packet::new(false, Flag::SYN, vec![b'a']).unwrap();
    let pck2 = Packet::new(true, Flag::ACK, vec![b'a', b'b']).unwrap();
    let pck3 = Packet::new(true, Flag::ACK, vec![b'a', b'b']).unwrap();
    let pck4 = Packet::new(true, Flag::ACK, vec![b'a', b'b']).unwrap();

    assert_ne!(pck1.encode(), pck2.encode());
    assert_eq!(pck3.encode(), pck4.encode());
}

#[test]
fn test_decode() {
    let pck1 = Packet::new(false, Flag::SYN, vec![b'a']).unwrap();
    let pck2 = Packet::new(true, Flag::ACK, vec![b'a', b'b']).unwrap();

    assert_eq!(Packet::decode(pck1.encode().to_vec()).unwrap(), pck1);

    assert_eq!(Packet::decode(pck2.encode().to_vec()).unwrap(), pck2,);
}

#[test]
fn test_encode_decode_checksum() {
    let pck1 = Packet::new(false, Flag::SYN, vec![b'a']).unwrap();
    let pck2 = Packet::new(true, Flag::ACK, vec![b'a', b'b']).unwrap();

    let pck1_decoded = Packet::decode(pck1.encode().to_vec()).unwrap();
    let pck2_decoded = Packet::decode(pck2.encode().to_vec()).unwrap();

    assert_eq!(pck1_decoded.calc_checksum(), pck1.calc_checksum());

    assert_eq!(pck2_decoded.calc_checksum(), pck2.calc_checksum());
}

const KINDS: [Flag; 5] = [Flag::SYN, Flag::ACK, Flag::FIN, Flag::FINACK, Flag::Data];

fn crc8(bytes: &[u8]) -> u8 {
    crc::Crc::<u8>::new(&crc::CRC_8_I_432_1).checksum(bytes)
}

#[test]
fn header_layout_is_exact() {
    let p = Packet::new(true, Flag::FINACK, vec![1, 2, 3]).unwrap();
    let e = p.encode();
    assert_eq!(e.len(), 7);
    assert_eq!(e[0], 0b1110_0000);
    assert_eq!(&e[2..4], &[0, 3]);
    assert_eq!(&e[4..], &[1, 2, 3]);
    assert_eq!(e[1], crc8(&[0b1110_0000, 0, 3, 1, 2, 3]));

    let kinds = [(Flag::SYN, 0x10u8), (Flag::ACK, 0x40), (Flag::FIN, 0x20), (Flag::FINACK, 0x60), (Flag::Data, 0x00)];
    for (k, bits) in kinds {
        assert_eq!(Packet::new(false, k, vec![]).unwrap().encode()[0], bits);
        assert_eq!(Packet::new(true, k, vec![]).unwrap().encode()[0], bits | 0x80);
    }
}

#[test]
fn checksum_is_crc8_i432_1() {
    let payload = b"123456789".to_vec();
    let p = Packet::new(false, Flag::Data, payload.clone()).unwrap();
    let mut covered = vec![0x00, 0x00, 0x09];
    covered.extend_from_slice(&payload);
    assert_eq!(p.calc_checksum(), crc8(&covered));
    assert_eq!(p.encode()[1], crc8(&covered));
    // the catalogue's check value for this algorithm
    assert_eq!(crc8(b"123456789"), 0xA1);
}

#[test]
fn build_encode_decode_round_trip_for_all_kinds_and_sizes() {
    for n in [false, true] {
        for k in KINDS {
            for len in [0usize, 1, 2, 255, 256, 507, 508] {
                let payload: Vec<u8> = (0..len).map(|i| (i * 7 + 3) as u8).collect();
                let p = Packet::new(n, k, payload.clone()).unwrap();
                assert!(!p.corrupt());
                assert!(p.notcorrupt());
                assert_eq!(p.payload(), &payload[..]);
                assert_eq!(p.n(), if n { 1 } else { 0 });
                let d = Packet::decode(p.encode().to_vec()).unwrap();
                assert_eq!(d, p);
                assert_eq!(d.encode(), p.encode());
                assert!(!d.corrupt());
            }
        }
    }
}

#[test]
fn payload_over_limit_is_rejected() {
    assert_eq!(Packet::max_pck_payload_size(), 508);
    assert_eq!(Packet::new(false, Flag::Data, vec![0; 509]).unwrap_err(), PacketError::PayloadTooLarge);
    assert!(Packet::new(false, Flag::Data, vec![0; 508]).is_ok());
}

#[test]
fn every_single_bit_flip_is_noticed() {
    for k in KINDS {
        let p = Packet::new(true, k, b"hello, snail".to_vec()).unwrap();
        let bytes = p.encode().to_vec();
        for i in 0..bytes.len() {
            for bit in 0..8 {
                // clearing a set bit of the length field shortens the payload
                // instead: see length_truncation_can_escape_the_checksum
                if (i == 2 || i == 3) && bytes[i] & (1 << bit) != 0 {
                    continue;
                }
                let mut f = bytes.clone();
                f[i] ^= 1 << bit;
                match Packet::decode(f) {
                    Ok(d) => assert!(d.corrupt(), "byte {} bit {} went unnoticed", i, bit),
                    Err(_) => {}
                }
            }
        }
    }
}

#[test]
fn length_truncation_can_escape_the_checksum() {
    let p = Packet::new(true, Flag::FINACK, b"hello, snail".to_vec()).unwrap();
    let mut f = p.encode().to_vec();
    f[3] ^= 1 << 3;
    let d = Packet::decode(f).unwrap();
    assert_eq!(d.payload(), b"hell");
    assert!(!d.corrupt());
}

#[test]
fn reserved_bits_are_rejected() {
    for nibble in 1u8..16 {
        let bytes = vec![0x10 | nibble, 0, 0, 0];
        assert_eq!(Packet::decode(bytes).unwrap_err(), PacketError::ReservedBitsSet);
    }
}

#[test]
fn unknown_kind_is_rejected() {
    for bits in [0x30u8, 0x50, 0x70] {
        assert_eq!(Packet::decode(vec![bits, 0, 0, 0]).unwrap_err(), PacketError::UnknownKind);
    }
}

#[test]
fn short_or_truncated_buffers_are_rejected() {
    assert_eq!(Packet::decode(vec![]).unwrap_err(), PacketError::ShortBuffer);
    assert_eq!(Packet::decode(vec![0x10, 0, 0]).unwrap_err(), PacketError::ShortBuffer);
    assert_eq!(Packet::decode(vec![0x00, 0, 0, 3, 1, 2]).unwrap_err(), PacketError::PayloadMissing);
    assert_eq!(Packet::decode(vec![0x00, 0, 1, 0, 1, 2]).unwrap_err(), PacketError::PayloadMissing);
}

#[test]
fn trailing_bytes_are_dropped_on_decode() {
    let p = Packet::new(false, Flag::Data, vec![9, 8]).unwrap();
    let mut bytes = p.encode().to_vec();
    bytes.extend_from_slice(&[0; 10]);
    let d = Packet::decode(bytes).unwrap();
    assert_eq!(d, p);
    assert_eq!(d.encode().len(), 6);
}

#[test]
fn kind_predicates() {
    let syn = Packet::new(false, Flag::SYN, vec![]).unwrap();
    assert!(syn.is_SYN() && !syn.is_not_SYN() && !syn.is_ACK());
    let ack = Packet::empty_frame(true, Flag::ACK);
    assert!(ack.is_ACK() && ack.is_not_SYN() && !ack.is_FIN());
    assert!(Packet::empty_frame(false, Flag::FIN).is_FIN());
    assert!(Packet::empty_frame(false, Flag::FINACK).is_FINACK());
    assert!(Packet::empty_frame(false, Flag::Data).is_Data());
    assert_eq!(ack.n(), 1);
    assert_eq!(ack.payload().len(), 0);
}

#[test]
fn clone_and_duplicate_keep_the_packet() {
    let p = Packet::new(true, Flag::Data, vec![4, 5, 6]).unwrap();
    let c = p.clone();
    let d = p.duplicate();
    assert_eq!(c, p);
    assert_eq!(d, p);
    assert_eq!(d.encode(), p.encode());
}
