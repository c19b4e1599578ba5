use mcpr::error::Error;
use mcpr::flashback::{
    read_chunk_header, scan_chunk_bytes, Action, ActionKind, ChunkMeta,
    ReadableChunkPacketStream, CHUNK_MAGIC,
};
use mcpr::protocol::write_varint;

fn push_varint(out: &mut Vec<u8>, v: i32) {
    write_varint(v, out);
}

fn push_string(out: &mut Vec<u8>, s: &str) {
    push_varint(out, s.len() as i32);
    out.extend_from_slice(s.as_bytes());
}

fn chunk_header(names: &[&str], snapshot: &[u8]) -> Vec<u8> {
    let mut out: Vec<u8> = Vec::new();
    out.extend_from_slice(&(CHUNK_MAGIC as u32).to_be_bytes());
    push_varint(&mut out, names.len() as i32);
    for name in names {
        push_string(&mut out, name);
    }
    out.extend_from_slice(&(snapshot.len() as u32).to_be_bytes());
    out.extend_from_slice(snapshot);
    out
}

fn push_record(out: &mut Vec<u8>, action: i32, payload: &[u8]) {
    push_varint(out, action);
    out.extend_from_slice(&(payload.len() as u32).to_be_bytes());
    out.extend_from_slice(payload);
}

#[test]
fn action_names_resolve() {
    assert_eq!(
        ActionKind::from_name(b"flashback:action/next_tick"),
        ActionKind::NextTick
    );
    assert_eq!(
        ActionKind::from_name(b"flashback:action/game_packet"),
        ActionKind::GamePacket
    );
    assert_eq!(
        ActionKind::from_name(b"flashback:action/accurate_player_position"),
        ActionKind::AccuratePlayerPosition
    );
    assert_eq!(
        ActionKind::from_name(b"flashback:action/unheard_of"),
        ActionKind::Unknown
    );
    assert_eq!(ActionKind::from_name(b""), ActionKind::Unknown);
}

#[test]
fn chunk_header_parses_names_and_skips_snapshot() {
    let bytes = chunk_header(
        &["flashback:action/next_tick", "flashback:action/game_packet"],
        &[1, 2, 3],
    );
    let (actions, pos) = read_chunk_header(&bytes, 0).unwrap();
    assert_eq!(actions, vec![ActionKind::NextTick, ActionKind::GamePacket]);
    assert_eq!(pos, bytes.len());
}

#[test]
fn chunk_header_rejects_wrong_magic() {
    let mut bytes = chunk_header(&[], &[]);
    bytes[0] ^= 0xff;
    assert_eq!(
        read_chunk_header(&bytes, 0).unwrap_err(),
        Error::MetadataFormatError
    );
}

#[test]
fn chunk_header_rejects_truncation() {
    let bytes = chunk_header(&["flashback:action/next_tick"], &[]);
    let cut = &bytes[..bytes.len() - 5];
    assert_eq!(
        read_chunk_header(cut, 0).unwrap_err(),
        Error::TruncatedInput
    );
}

#[test]
fn chunk_stream_yields_records() {
    let mut bytes: Vec<u8> = Vec::new();
    push_record(&mut bytes, 1, &[0xaa, 0xbb]);
    push_record(&mut bytes, 0, &[]);
    let mut stream = ReadableChunkPacketStream::new(
        vec![ActionKind::NextTick, ActionKind::GamePacket],
        bytes,
    );
    let a = stream.next().unwrap();
    assert_eq!(a.id(), ActionKind::GamePacket);
    assert_eq!(a.data(), &vec![0xaa, 0xbb]);
    let b = stream.next().unwrap();
    assert_eq!(b.id(), ActionKind::NextTick);
    assert!(stream.next().is_none());
}

#[test]
fn chunk_stream_stops_on_out_of_table_index() {
    let mut bytes: Vec<u8> = Vec::new();
    push_record(&mut bytes, 7, &[]);
    let mut stream = ReadableChunkPacketStream::new(vec![ActionKind::NextTick], bytes);
    assert!(stream.next().is_none());
}

#[test]
fn scan_counts_ticks_and_tags_actions() {
    let mut bytes = chunk_header(
        &["flashback:action/next_tick", "flashback:action/game_packet"],
        &[9, 9],
    );
    push_record(&mut bytes, 0, &[]); // tick
    push_record(&mut bytes, 1, &[1, 2]); // packet on tick 11
    push_record(&mut bytes, 0, &[]); // tick
    push_record(&mut bytes, 0, &[]); // tick
    push_record(&mut bytes, 1, &[3]); // packet on tick 13
    let tagged = scan_chunk_bytes(bytes, 10).unwrap();
    assert_eq!(tagged.len(), 2);
    assert_eq!(tagged[0].0, 11);
    assert_eq!(tagged[0].1.data(), &vec![1, 2]);
    assert_eq!(tagged[1].0, 13);
    assert_eq!(tagged[1].1.data(), &vec![3]);
}

#[test]
fn scan_of_bad_magic_reports_format_error() {
    let bytes = vec![0u8, 1, 2, 3];
    assert_eq!(
        scan_chunk_bytes(bytes, 0).unwrap_err(),
        Error::MetadataFormatError
    );
}

#[test]
fn action_holds_its_parts() {
    let a = Action::new(ActionKind::MoveEntities, vec![4, 5]);
    assert_eq!(a.id(), ActionKind::MoveEntities);
    assert_eq!(a.data(), &vec![4, 5]);
    let c = ChunkMeta { duration: 40 };
    assert_eq!(c.duration, 40);
}
