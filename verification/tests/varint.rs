use mcpr::error::Error;
use mcpr::protocol::{read_varint, read_varlong, write_varint, write_varlong};

fn encode32(v: i32) -> Vec<u8> {
    let mut out: Vec<u8> = Vec::new();
    write_varint(v, &mut out);
    out
}

fn encode64(v: i64) -> Vec<u8> {
    let mut out: Vec<u8> = Vec::new();
    write_varlong(v, &mut out);
    out
}

#[test]
fn varint_round_trip_small_values() {
    for v in [0i32, 1, 2, 127, 128, 255, 300, 25565, 2097151, i32::MAX] {
        let bytes = encode32(v);
        let (decoded, used) = read_varint(&bytes, 0).unwrap();
        assert_eq!(decoded, v);
        assert_eq!(used, bytes.len());
    }
}

#[test]
fn varint_round_trip_negative_values() {
    for v in [-1i32, -2, -255, -25565, i32::MIN] {
        let bytes = encode32(v);
        assert_eq!(bytes.len(), 5);
        let (decoded, used) = read_varint(&bytes, 0).unwrap();
        assert_eq!(decoded, v);
        assert_eq!(used, 5);
    }
}

#[test]
fn varint_byte_counts() {
    assert_eq!(encode32(0).len(), 1);
    assert_eq!(encode32(127).len(), 1);
    assert_eq!(encode32(128).len(), 2);
    assert_eq!(encode32(16384).len(), 3);
}

#[test]
fn varint_known_encodings() {
    assert_eq!(encode32(0), vec![0x00]);
    assert_eq!(encode32(127), vec![0x7f]);
    assert_eq!(encode32(128), vec![0x80, 0x01]);
    assert_eq!(encode32(25565), vec![0xdd, 0xc7, 0x01]);
    assert_eq!(encode32(-1), vec![0xff, 0xff, 0xff, 0xff, 0x0f]);
}

#[test]
fn varint_rejects_overlong_run() {
    let bytes = vec![0x80u8, 0x80, 0x80, 0x80, 0x80, 0x01];
    assert_eq!(read_varint(&bytes, 0), Err(Error::MalformedVarint));
}

#[test]
fn varint_rejects_truncated_run() {
    let bytes = vec![0x80u8, 0x80];
    assert_eq!(read_varint(&bytes, 0), Err(Error::TruncatedInput));
    let empty: Vec<u8> = Vec::new();
    assert_eq!(read_varint(&empty, 0), Err(Error::TruncatedInput));
}

#[test]
fn varint_accepts_non_canonical_zero() {
    let bytes = vec![0x80u8, 0x00];
    let (decoded, used) = read_varint(&bytes, 0).unwrap();
    assert_eq!(decoded, 0);
    assert_eq!(used, 2);
}

#[test]
fn varint_reads_at_offset() {
    let mut bytes = vec![0xaau8, 0xbb];
    write_varint(300, &mut bytes);
    let (decoded, used) = read_varint(&bytes, 2).unwrap();
    assert_eq!(decoded, 300);
    assert_eq!(used, 2);
}

#[test]
fn varlong_round_trip() {
    for v in [0i64, 1, 127, 128, 255, 1 << 40, i64::MAX, -1, -300, i64::MIN] {
        let bytes = encode64(v);
        let (decoded, used) = read_varlong(&bytes, 0).unwrap();
        assert_eq!(decoded, v);
        assert_eq!(used, bytes.len());
    }
}

#[test]
fn varlong_negative_takes_ten_bytes() {
    assert_eq!(encode64(-1).len(), 10);
    assert_eq!(
        read_varlong(&vec![0x80u8; 10], 0),
        Err(Error::MalformedVarint)
    );
}
