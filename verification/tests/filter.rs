use mcpr::filter::{parse_packet_id, PacketFilterMask};

#[test]
fn last_operation_wins_deny_then_allow() {
    let mut mask = PacketFilterMask::new(true, true);
    mask.deny(0x2b);
    mask.allow(0x2b);
    assert!(mask.admits(0x2b));
}

#[test]
fn last_operation_wins_allow_then_deny() {
    let mut mask = PacketFilterMask::new(false, false);
    mask.allow(0x2b);
    mask.deny(0x2b);
    assert!(!mask.admits(0x2b));
}

#[test]
fn default_policy_covers_whole_table() {
    let allow_all = PacketFilterMask::new(true, false);
    let deny_all = PacketFilterMask::new(false, true);
    for id in 0..256 {
        assert!(allow_all.admits(id));
        assert!(!deny_all.admits(id));
    }
}

#[test]
fn out_of_table_identifiers_use_unknown_policy() {
    let mask = PacketFilterMask::new(false, true);
    assert!(mask.admits(-1));
    assert!(mask.admits(256));
    assert!(mask.admits(i32::MAX));
    assert!(mask.admits(i32::MIN));
    let strict = PacketFilterMask::new(true, false);
    assert!(!strict.admits(-1));
    assert!(!strict.admits(1000));
}

#[test]
fn operations_touch_only_their_identifier() {
    let mut mask = PacketFilterMask::new(true, true);
    mask.deny(0x10);
    assert!(!mask.admits(0x10));
    assert!(mask.admits(0x0f));
    assert!(mask.admits(0x11));
}

#[test]
fn parse_packet_id_accepts_hex_forms() {
    assert_eq!(parse_packet_id("0x2B"), Some(0x2b));
    assert_eq!(parse_packet_id("2b"), Some(0x2b));
    assert_eq!(parse_packet_id("0"), Some(0));
    assert_eq!(parse_packet_id("ff"), Some(255));
    assert_eq!(parse_packet_id("0x000000ff"), Some(255));
}

#[test]
fn parse_packet_id_rejects_bad_input() {
    assert_eq!(parse_packet_id(""), None);
    assert_eq!(parse_packet_id("0x"), None);
    assert_eq!(parse_packet_id("zz"), None);
    assert_eq!(parse_packet_id("100"), None);
    assert_eq!(parse_packet_id("0x1ff"), None);
    assert_eq!(parse_packet_id("-1"), None);
}
