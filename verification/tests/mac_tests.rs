use backend::mac::{collect_macs, parse_mac};

#[test]
fn parses_upper_case_mac() {
    assert_eq!(parse_mac("AA:BB:CC:DD:EE:FF"), Some([0xAA, 0xBB, 0xCC, 0xDD, 0xEE, 0xFF]));
}

#[test]
fn parses_lower_case_mac() {
    assert_eq!(parse_mac("11:22:33:44:55:6a"), Some([0x11, 0x22, 0x33, 0x44, 0x55, 0x6A]));
}

#[test]
fn accepts_short_padded_and_signed_fields() {
    assert_eq!(parse_mac("0:1:a:0ff:+7:00000b"), Some([0, 1, 10, 255, 7, 11]));
}

#[test]
fn rejects_wrong_field_count() {
    assert_eq!(parse_mac("AA:BB:CC:DD:EE"), None);
    assert_eq!(parse_mac("AA:BB:CC:DD:EE:FF:00"), None);
    assert_eq!(parse_mac(""), None);
    assert_eq!(parse_mac("AABBCCDDEEFF"), None);
}

#[test]
fn rejects_bad_fields() {
    assert_eq!(parse_mac("AA:BB::DD:EE:FF"), None);
    assert_eq!(parse_mac("AA:BB:CG:DD:EE:FF"), None);
    assert_eq!(parse_mac("AA:BB:100:DD:EE:FF"), None);
    assert_eq!(parse_mac("AA:BB:+:DD:EE:FF"), None);
    assert_eq!(parse_mac("AA:BB:-1:DD:EE:FF"), None);
    assert_eq!(parse_mac("AA:BB:CC:DD:EE:FF "), None);
    assert_eq!(parse_mac("AA:BB:CC:DD:EE:\u{e9}"), None);
}

#[test]
fn collect_macs_keeps_readable_addresses_in_order() {
    let raw = vec![
        "AA:BB:CC:DD:EE:FF".to_string(),
        "not a mac".to_string(),
        "11:22:33:44:55:66".to_string(),
        "11:22:33:44:55".to_string(),
    ];
    assert_eq!(
        collect_macs(&raw),
        vec![[0xAA, 0xBB, 0xCC, 0xDD, 0xEE, 0xFF], [0x11, 0x22, 0x33, 0x44, 0x55, 0x66]]
    );
    assert_eq!(collect_macs(&Vec::new()), Vec::<[u8; 6]>::new());
}

#[test]
fn canonical_text_reads_back() {
    let mac = [0x00, 0x1A, 0x2B, 0xFE, 0x09, 0x90];
    let upper = mac.iter().map(|b| format!("{:02X}", b)).collect::<Vec<_>>().join(":");
    let lower = mac.iter().map(|b| format!("{:02x}", b)).collect::<Vec<_>>().join(":");
    assert_eq!(parse_mac(&upper), Some(mac));
    assert_eq!(parse_mac(&lower), Some(mac));
}
