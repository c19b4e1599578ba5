use mcpr::archive::zip::{ZipArchiveReader, ZipArchiveWriter};
use mcpr::archive::{ArchiveReader, ArchiveWriter};
use mcpr::error::Error;
use mcpr::mcpr::{MCPRReader, MCPRWriter, MetaData, Packet, WritablePacketStream};

#[test]
fn container_round_trip() {
    let mut writer = MCPRWriter::new(Some(6));
    let mut stream = WritablePacketStream::new();
    stream.push(&Packet::new(1, 0x10, vec![1, 2, 3]));
    stream.push(&Packet::new(2, 0x02, Vec::new()));
    writer.write_packets(stream).unwrap();
    writer.write_metadata(b"{\"duration\":5}").unwrap();
    let bytes = writer.finish().unwrap();

    let mut reader = MCPRReader::new(bytes).unwrap();
    assert_eq!(reader.read_metadata().unwrap(), b"{\"duration\":5}".to_vec());
    let mut packets = reader.get_packet_reader().unwrap();
    let (_, first) = packets.next().unwrap().unwrap();
    assert_eq!(first.time(), 1);
    assert_eq!(first.id(), 0x10);
    assert_eq!(first.data(), &vec![1, 2, 3]);
    let (_, second) = packets.next().unwrap().unwrap();
    assert_eq!(second.id(), 0x02);
    assert!(packets.next().unwrap().is_none());
}

#[test]
fn zip_backend_stores_entries_by_name() {
    let mut writer = ZipArchiveWriter::new(None);
    writer.write_entry("alpha", &[1, 2, 3]).unwrap();
    writer.write_entry("beta", &[4]).unwrap();
    let bytes = writer.finish().unwrap();

    let mut reader = ZipArchiveReader::new(bytes).unwrap();
    assert_eq!(reader.read_entry("beta").unwrap(), vec![4]);
    assert_eq!(reader.read_entry("alpha").unwrap(), vec![1, 2, 3]);
}

#[test]
fn missing_entry_is_entry_not_found() {
    let writer = ZipArchiveWriter::new(None);
    let bytes = writer.finish().unwrap();
    let mut reader = ZipArchiveReader::new(bytes).unwrap();
    assert_eq!(reader.read_entry("nope").unwrap_err(), Error::EntryNotFound);
}

#[test]
fn garbage_bytes_are_not_an_archive() {
    assert!(ZipArchiveReader::new(vec![0, 1, 2, 3, 4]).is_err());
}

#[test]
fn metadata_defaults() {
    let m = MetaData::default();
    assert!(!m.singleplayer);
    assert_eq!(m.duration, 0);
    assert_eq!(m.self_id, -1);
    assert!(m.players.is_empty());
    assert!(m.server_name.is_empty());
}

#[test]
fn metadata_duplicate_is_deep() {
    let mut m = MetaData::default();
    m.mcversion = "1.20.4".to_string();
    m.players = vec![7, 9];
    let d = m.duplicate();
    assert_eq!(d.mcversion, "1.20.4");
    assert_eq!(d.players, vec![7, 9]);
}

#[test]
fn error_messages_name_the_failure() {
    assert!(Error::TruncatedInput.message().contains("mid-record"));
    assert!(Error::EntryNotFound.message().contains("entry"));
}

#[test]
fn duplicate_entry_name_is_rejected() {
    let mut writer = ZipArchiveWriter::new(None);
    writer.write_entry("alpha", &[1]).unwrap();
    assert_eq!(writer.write_entry("alpha", &[2]).unwrap_err(), Error::IOError);
}

#[test]
fn compression_level_never_changes_what_reads_back() {
    let payload: Vec<u8> = (0..200u32).map(|i| (i % 7) as u8).collect();
    let mut bytes_by_level: Vec<Vec<u8>> = Vec::new();
    for level in [None, Some(1), Some(9)] {
        let mut writer = ZipArchiveWriter::new(level);
        writer.write_entry("data", &payload).unwrap();
        bytes_by_level.push(writer.finish().unwrap());
    }
    for bytes in bytes_by_level {
        let mut reader = ZipArchiveReader::new(bytes).unwrap();
        assert_eq!(reader.read_entry("data").unwrap(), payload);
    }
}
