use mcpr::mcpr::{MetaData, Packet};
use mcpr::merge::{ReplayInput, ReplayStream};

fn meta(duration: u64, players: Vec<u128>) -> MetaData {
    let mut m = MetaData::default();
    m.duration = duration;
    m.players = players;
    m
}

fn play_input(duration: u64, players: Vec<u128>, ids: &[i32]) -> ReplayInput {
    let packets = ids
        .iter()
        .enumerate()
        .map(|(i, &id)| Packet::new(i as u32, id, Vec::new()))
        .collect();
    ReplayInput { packets, meta: meta(duration, players) }
}

#[test]
fn merged_duration_is_reported_durations_plus_gap() {
    let mut cfg = ReplayStream::new(true, true);
    cfg.interval(20);
    let inputs = vec![
        play_input(1000, vec![1], &[0x42]),
        play_input(500, vec![2], &[0x42]),
    ];
    let (_, merged) = cfg.merge(&inputs);
    assert_eq!(merged.duration, 1520);
}

#[test]
fn merged_duration_ignores_actual_timestamps() {
    let mut cfg = ReplayStream::new(true, true);
    cfg.interval(20);
    let mut first = play_input(1000, vec![], &[]);
    // a packet far past the reported duration changes nothing
    first.packets = vec![Packet::new(999_999, 0x42, Vec::new())];
    let inputs = vec![first, play_input(500, vec![], &[])];
    let (_, merged) = cfg.merge(&inputs);
    assert_eq!(merged.duration, 1520);
}

#[test]
fn participants_union_without_duplicates() {
    let a: u128 = 0x0a;
    let b: u128 = 0x0b;
    let c: u128 = 0x0c;
    let cfg = ReplayStream::new(true, true);
    let inputs = vec![
        play_input(10, vec![a, b], &[]),
        play_input(10, vec![b, c], &[]),
    ];
    let (_, merged) = cfg.merge(&inputs);
    assert_eq!(merged.players.len(), 3);
    assert!(merged.players.contains(&a));
    assert!(merged.players.contains(&b));
    assert!(merged.players.contains(&c));
}

#[test]
fn first_input_keeps_pre_play_packets() {
    let cfg = ReplayStream::new(true, true);
    let inputs = vec![play_input(10, vec![], &[0x10, 0x02, 0x03, 0x20])];
    let (packets, _) = cfg.merge(&inputs);
    assert_eq!(packets.len(), 4);
}

#[test]
fn subsequent_input_drops_pre_play_packets() {
    let mut cfg = ReplayStream::new(true, true);
    cfg.interval(0);
    // the second input replays a login sequence: identifiers before the
    // Play phase are suppressed even though the mask admits them all.
    let inputs = vec![
        play_input(100, vec![], &[0x42]),
        play_input(100, vec![], &[0x10, 0x02, 0x20, 0x03, 0x50, 0x51]),
    ];
    let (packets, _) = cfg.merge(&inputs);
    let ids: Vec<i32> = packets.iter().map(|p| p.id()).collect();
    assert_eq!(ids, vec![0x42, 0x50, 0x51]);
}

#[test]
fn subsequent_input_drops_reset_identifier_even_in_play() {
    let mut cfg = ReplayStream::new(true, true);
    cfg.reset_packet(0x07);
    let inputs = vec![
        play_input(100, vec![], &[0x07]),
        play_input(100, vec![], &[0x02, 0x03, 0x07, 0x50, 0x07]),
    ];
    let (packets, _) = cfg.merge(&inputs);
    let ids: Vec<i32> = packets.iter().map(|p| p.id()).collect();
    // the first input keeps its reset packet; the second loses both of its
    // own even though it is in Play by then.
    assert_eq!(ids, vec![0x07, 0x50]);
}

#[test]
fn packets_are_rebased_by_running_offset() {
    let mut cfg = ReplayStream::new(true, true);
    cfg.interval(20);
    let mut second = play_input(500, vec![], &[]);
    second.packets = vec![
        Packet::new(0, 0x02, Vec::new()),
        Packet::new(5, 0x03, Vec::new()),
        Packet::new(9, 0x50, Vec::new()),
    ];
    let inputs = vec![play_input(1000, vec![], &[0x42]), second];
    let (packets, _) = cfg.merge(&inputs);
    // first input's packet keeps its time; the second input's only kept
    // packet is shifted by 1000 + 20.
    assert_eq!(packets.len(), 2);
    assert_eq!(packets[0].time(), 0);
    assert_eq!(packets[1].id(), 0x50);
    assert_eq!(packets[1].time(), 1029);
}

#[test]
fn mask_filters_identifiers_in_both_inputs() {
    let mut cfg = ReplayStream::new(true, true);
    cfg.deny(0x42);
    let inputs = vec![
        play_input(10, vec![], &[0x41, 0x42, 0x43]),
        play_input(10, vec![], &[0x02, 0x03, 0x42, 0x44]),
    ];
    let (packets, _) = cfg.merge(&inputs);
    let ids: Vec<i32> = packets.iter().map(|p| p.id()).collect();
    assert_eq!(ids, vec![0x41, 0x43, 0x44]);
}

#[test]
fn merge_of_no_inputs_is_empty() {
    let cfg = ReplayStream::new(true, true);
    let inputs: Vec<ReplayInput> = Vec::new();
    let (packets, merged) = cfg.merge(&inputs);
    assert!(packets.is_empty());
    assert_eq!(merged.duration, 0);
    assert!(merged.players.is_empty());
    assert_eq!(merged.self_id, -1);
}

#[test]
fn merged_tags_come_from_first_input() {
    let cfg = ReplayStream::new(true, true);
    let mut first = play_input(10, vec![], &[]);
    first.meta.protocol = 765;
    first.meta.self_id = 9;
    let inputs = vec![first, play_input(10, vec![], &[])];
    let (_, merged) = cfg.merge(&inputs);
    assert_eq!(merged.protocol, 765);
    assert_eq!(merged.self_id, 9);
}

#[test]
fn merge_checked_accepts_fitting_inputs() {
    let mut cfg = ReplayStream::new(true, true);
    cfg.interval(1);
    let inputs = vec![
        play_input(10, vec![1], &[0x42]),
        play_input(10, vec![2], &[0x02, 0x03, 0x50]),
    ];
    let (packets, merged) = cfg.merge_checked(&inputs).unwrap();
    assert_eq!(merged.duration, 21);
    assert_eq!(packets.len(), 2);
}

#[test]
fn merge_checked_rejects_time_overflow() {
    let mut cfg = ReplayStream::new(true, true);
    cfg.interval(0);
    let mut second = play_input(10, vec![], &[]);
    second.packets = vec![Packet::new(u32::MAX, 0x42, Vec::new())];
    let inputs = vec![play_input(1, vec![], &[]), second];
    assert!(cfg.merge_checked(&inputs).is_none());
}

#[test]
fn merge_checked_rejects_duration_overflow() {
    let cfg = ReplayStream::new(true, true);
    let inputs = vec![
        play_input(u64::MAX, vec![], &[]),
        play_input(1, vec![], &[]),
    ];
    assert!(cfg.merge_checked(&inputs).is_none());
}

#[test]
fn session_yields_the_merge_one_packet_at_a_time() {
    let mut cfg = ReplayStream::new(true, true);
    cfg.interval(20);
    let inputs = vec![
        play_input(1000, vec![1], &[0x41, 0x42]),
        play_input(500, vec![2], &[0x02, 0x03, 0x50]),
    ];
    let mut cfg2 = ReplayStream::new(true, true);
    cfg2.interval(20);
    let (expected, expected_meta) = cfg2.merge(&inputs);

    let mut session = cfg.session(inputs);
    let mut collected: Vec<mcpr::mcpr::Packet> = Vec::new();
    while let Some(p) = session.next_packet() {
        collected.push(p);
    }
    assert_eq!(collected.len(), expected.len());
    for (a, b) in collected.iter().zip(expected.iter()) {
        assert_eq!(a.time(), b.time());
        assert_eq!(a.id(), b.id());
        assert_eq!(a.data(), b.data());
    }
    let meta = session.finish().unwrap();
    assert_eq!(meta.duration, expected_meta.duration);
    assert_eq!(meta.players.len(), expected_meta.players.len());
}

#[test]
fn session_stopped_early_yields_no_metadata() {
    let cfg = ReplayStream::new(true, true);
    let inputs = vec![
        play_input(10, vec![1], &[0x41, 0x42, 0x43]),
        play_input(10, vec![2], &[0x02, 0x03, 0x50]),
    ];
    let mut session = cfg.session(inputs);
    // the caller vetoes after the first admitted packet: nothing forces
    // the remaining inputs to be consumed, and no metadata is produced.
    let first = session.next_packet().unwrap();
    assert_eq!(first.id(), 0x41);
    assert!(session.finish().is_none());
}

#[test]
fn session_of_no_inputs_ends_at_once() {
    let cfg = ReplayStream::new(true, true);
    let mut session = cfg.session(Vec::new());
    assert!(session.next_packet().is_none());
    let meta = session.finish().unwrap();
    assert_eq!(meta.duration, 0);
}
