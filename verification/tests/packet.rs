use mcpr::error::Error;
use mcpr::mcpr::{read_all_packets, read_packet, write_packet, Packet};

#[test]
fn packet_round_trip() {
    let p = Packet::new(12345, 0x2b, vec![9, 8, 7, 6]);
    let mut bytes: Vec<u8> = Vec::new();
    write_packet(&p, &mut bytes);
    let (q, used) = read_packet(&bytes, 0).unwrap().unwrap();
    assert_eq!(q.time(), 12345);
    assert_eq!(q.id(), 0x2b);
    assert_eq!(q.data(), &vec![9, 8, 7, 6]);
    assert_eq!(used, bytes.len());
}

#[test]
fn packet_round_trip_empty_payload() {
    let p = Packet::new(0, 0, Vec::new());
    let mut bytes: Vec<u8> = Vec::new();
    p.write_to(&mut bytes);
    let (q, used) = Packet::read_from(&bytes, 0).unwrap().unwrap();
    assert_eq!(q.time(), 0);
    assert_eq!(q.id(), 0);
    assert!(q.data().is_empty());
    assert_eq!(used, 9);
}

#[test]
fn packet_known_encoding() {
    // 8-byte header: big-endian time, then big-endian derived length
    // (identifier varint plus payload), then the varint, then the payload.
    let p = Packet::new(1, 0, vec![0xaa]);
    let mut bytes: Vec<u8> = Vec::new();
    write_packet(&p, &mut bytes);
    assert_eq!(bytes, vec![0, 0, 0, 1, 0, 0, 0, 2, 0x00, 0xaa]);
}

#[test]
fn packet_length_field_counts_varint() {
    // identifier 300 takes a 2-byte varint, so the stored length is 2 + 3.
    let p = Packet::new(7, 300, vec![1, 2, 3]);
    let mut bytes: Vec<u8> = Vec::new();
    write_packet(&p, &mut bytes);
    assert_eq!(&bytes[4..8], &[0, 0, 0, 5]);
}

#[test]
fn empty_stream_is_clean_end() {
    let bytes: Vec<u8> = Vec::new();
    assert!(read_packet(&bytes, 0).unwrap().is_none());
}

#[test]
fn short_header_is_truncated_input() {
    let bytes = vec![0u8, 1, 2];
    assert_eq!(read_packet(&bytes, 0).unwrap_err(), Error::TruncatedInput);
}

#[test]
fn short_payload_is_truncated_input() {
    // header promises 4 body bytes but only 2 follow.
    let bytes = vec![0, 0, 0, 0, 0, 0, 0, 4, 0x00, 0xaa];
    assert_eq!(read_packet(&bytes, 0).unwrap_err(), Error::TruncatedInput);
}

#[test]
fn overlong_identifier_varint_is_malformed() {
    let bytes = vec![0, 0, 0, 0, 0, 0, 0, 5, 0x80, 0x80, 0x80, 0x80, 0x80];
    assert_eq!(read_packet(&bytes, 0).unwrap_err(), Error::MalformedVarint);
}

#[test]
fn identifier_varint_cut_by_length_is_truncated() {
    // the body holds one continuation byte and nothing else, even though
    // more bytes follow in the stream.
    let bytes = vec![0, 0, 0, 0, 0, 0, 0, 1, 0x80, 0x05];
    assert_eq!(read_packet(&bytes, 0).unwrap_err(), Error::TruncatedInput);
}

#[test]
fn negative_identifier_round_trips() {
    let p = Packet::new(3, -7, vec![5]);
    let mut bytes: Vec<u8> = Vec::new();
    write_packet(&p, &mut bytes);
    let (q, _) = read_packet(&bytes, 0).unwrap().unwrap();
    assert_eq!(q.id(), -7);
}

#[test]
fn read_all_packets_collects_in_order() {
    let mut bytes: Vec<u8> = Vec::new();
    for (t, id) in [(1u32, 0x10i32), (2, 0x11), (3, 0x12)] {
        write_packet(&Packet::new(t, id, vec![t as u8]), &mut bytes);
    }
    let packets = read_all_packets(&bytes).unwrap();
    assert_eq!(packets.len(), 3);
    assert_eq!(packets[0].time(), 1);
    assert_eq!(packets[1].id(), 0x11);
    assert_eq!(packets[2].data(), &vec![3]);
}

#[test]
fn read_all_packets_reports_truncation() {
    let mut bytes: Vec<u8> = Vec::new();
    write_packet(&Packet::new(1, 1, vec![1]), &mut bytes);
    bytes.extend_from_slice(&[0, 0, 0]);
    assert_eq!(read_all_packets(&bytes).unwrap_err(), Error::TruncatedInput);
}

#[test]
fn length_is_varint_plus_payload() {
    assert_eq!(Packet::new(0, 0, vec![1, 2, 3]).length(), Some(4));
    assert_eq!(Packet::new(0, 300, vec![1, 2, 3]).length(), Some(5));
    assert_eq!(Packet::new(0, -1, Vec::new()).length(), Some(5));
}
