use icue_kb_games::cursor::Cursor;
use icue_kb_games::error::ProtocolError;
use icue_kb_games::le::{push_u16_le, push_u32_le, u16_from_le, u32_as_signed, u32_from_le};
use icue_kb_games::packet::{decode_header, encode_header, Packet, PacketHeader};

#[test]
fn little_endian_values_are_exact() {
    assert_eq!(u16_from_le(0x34, 0x12), 0x1234);
    assert_eq!(u32_from_le(0x78, 0x56, 0x34, 0x12), 0x1234_5678);
    assert_eq!(u32_from_le(0xff, 0xff, 0xff, 0xff), u32::MAX);
    let mut out = vec![7u8];
    push_u16_le(&mut out, 0xBEEF);
    push_u32_le(&mut out, 0xDEAD_C0DE);
    assert_eq!(out, vec![7, 0xEF, 0xBE, 0xDE, 0xC0, 0xAD, 0xDE]);
}

#[test]
fn signed_reading_is_twos_complement() {
    assert_eq!(u32_as_signed(0), 0);
    assert_eq!(u32_as_signed(5), 5);
    assert_eq!(u32_as_signed(0x7FFF_FFFF), i32::MAX);
    assert_eq!(u32_as_signed(0x8000_0000), i32::MIN);
    assert_eq!(u32_as_signed(0xFFFF_FFFF), -1);
    assert_eq!(u32_as_signed(0xFFFF_FFFE), -2);
}

#[test]
fn packet_encodes_header_then_payload() {
    let p = Packet { device_index: 3, packet_id: 1050, payload: vec![1, 2, 3] };
    let bytes = p.encode();
    assert_eq!(
        bytes,
        vec![b'O', b'R', b'G', b'B', 3, 0, 0, 0, 0x1a, 0x04, 0, 0, 3, 0, 0, 0, 1, 2, 3]
    );
    assert_eq!(Packet::decode(&bytes), Ok(p));
}

#[test]
fn header_alone_is_sixteen_bytes() {
    let bytes = encode_header(1, 40, 4);
    assert_eq!(bytes.len(), 16);
    assert_eq!(
        decode_header(&bytes),
        Ok(PacketHeader { device_index: 1, packet_id: 40, payload_len: 4 })
    );
}

#[test]
fn packet_round_trips_through_bytes() {
    for len in [0usize, 1, 5, 300] {
        let payload: Vec<u8> = (0..len).map(|i| (i * 7 % 251) as u8).collect();
        let p = Packet { device_index: 0xA1B2_C3D4, packet_id: 1100, payload };
        let bytes = p.encode();
        assert_eq!(bytes.len(), 16 + len);
        let back = Packet::decode(&bytes).unwrap();
        assert_eq!(back, p);
        assert_eq!(back.encode(), bytes);
    }
}

#[test]
fn short_payload_is_truncated() {
    let p = Packet { device_index: 0, packet_id: 1, payload: vec![9, 9, 9, 9] };
    let bytes = p.encode();
    for cut in 0..bytes.len() {
        assert_eq!(Packet::decode(&bytes[..cut]), Err(ProtocolError::Truncated));
    }
}

#[test]
fn wrong_tag_is_bad_magic() {
    let p = Packet { device_index: 0, packet_id: 1, payload: vec![] };
    for at in 0..4 {
        let mut bytes = p.encode();
        bytes[at] ^= 0x20;
        assert_eq!(Packet::decode(&bytes), Err(ProtocolError::BadMagic));
        assert_eq!(decode_header(&bytes), Err(ProtocolError::BadMagic));
    }
}

#[test]
fn short_header_is_truncated_before_the_tag_is_looked_at() {
    assert_eq!(decode_header(b"XXXX"), Err(ProtocolError::Truncated));
    assert_eq!(decode_header(&[]), Err(ProtocolError::Truncated));
}

#[test]
fn bytes_behind_the_payload_are_left_alone() {
    let p = Packet { device_index: 2, packet_id: 0, payload: vec![4, 0, 0, 0] };
    let mut bytes = p.encode();
    bytes.extend_from_slice(b"ORGB more");
    assert_eq!(Packet::decode(&bytes), Ok(p));
}

#[test]
fn cursor_reads_in_order() {
    let buf = [1u8, 0, 2, 0, 0, 0, 0xff, 0xff, 0xff, 0xff, 9];
    let mut c = Cursor::new(&buf);
    assert_eq!(c.read_u16(), Ok(1));
    assert_eq!(c.read_u32(), Ok(2));
    assert_eq!(c.read_i32(), Ok(-1));
    assert_eq!(c.consumed(), 10);
    assert_eq!(c.read_bytes(1), Ok(&buf[10..]));
    assert_eq!(c.consumed(), 11);
    assert_eq!(c.skip(0), Ok(()));
}

#[test]
fn failed_read_consumes_nothing() {
    let buf = [1u8, 2, 3];
    let mut c = Cursor::new(&buf);
    assert_eq!(c.read_u32(), Err(ProtocolError::Truncated));
    assert_eq!(c.read_i32(), Err(ProtocolError::Truncated));
    assert_eq!(c.skip(4), Err(ProtocolError::Truncated));
    assert_eq!(c.skip(usize::MAX), Err(ProtocolError::Truncated));
    assert_eq!(c.consumed(), 0);
    assert_eq!(c.read_u16(), Ok(0x0201));
    assert_eq!(c.read_u16(), Err(ProtocolError::Truncated));
    assert_eq!(c.consumed(), 2);
}

#[test]
fn string_stops_at_the_first_zero_byte() {
    let buf = [6u8, 0, b'a', b'b', 0, b'c', 0, 0, 0xAA];
    let mut c = Cursor::new(&buf);
    assert_eq!(c.read_string(), Ok("ab".to_string()));
    assert_eq!(c.consumed(), 8);
}

#[test]
fn string_without_zero_byte_is_taken_whole() {
    let buf = [3u8, 0, b'x', b'y', b'z'];
    let mut c = Cursor::new(&buf);
    assert_eq!(c.read_string(), Ok("xyz".to_string()));
    assert_eq!(c.consumed(), 5);
}

#[test]
fn empty_string_is_two_bytes() {
    let buf = [0u8, 0, 1];
    let mut c = Cursor::new(&buf);
    assert_eq!(c.read_string(), Ok(String::new()));
    assert_eq!(c.consumed(), 2);
}

#[test]
fn invalid_text_is_replaced_not_rejected() {
    let buf = [4u8, 0, b'K', 0xFF, b'Q', 0];
    let mut c = Cursor::new(&buf);
    assert_eq!(c.read_string(), Ok("K\u{FFFD}Q".to_string()));
    let buf = [3u8, 0, 0xC3, 0xA9, 0];
    let mut c = Cursor::new(&buf);
    assert_eq!(c.read_string(), Ok("\u{e9}".to_string()));
}

#[test]
fn string_longer_than_the_buffer_is_truncated() {
    let buf = [5u8, 0, b'a', b'b'];
    let mut c = Cursor::new(&buf);
    assert_eq!(c.read_string(), Err(ProtocolError::Truncated));
    assert_eq!(c.consumed(), 0);
    let buf = [5u8];
    let mut c = Cursor::new(&buf);
    assert_eq!(c.read_string(), Err(ProtocolError::Truncated));
}
