use backend::protocol::build_set_filter_message;

// The payload here is 20 bytes (1 + 5 + 2 + 2 * 6), which is what the
// `payload_len` field holds.
#[test]
fn documented_example_message() {
    let msg = build_set_filter_message(
        "wlan0",
        &[[0xAA, 0xBB, 0xCC, 0xDD, 0xEE, 0xFF], [0x11, 0x22, 0x33, 0x44, 0x55, 0x66]],
    );
    let expected: Vec<u8> = vec![
        0x4E, 0x44, 0x01, 0x01, 0x00, 0x00, 0x00, 0x14, 0x05, 0x77, 0x6C, 0x61, 0x6E, 0x30, 0x00,
        0x02, 0xAA, 0xBB, 0xCC, 0xDD, 0xEE, 0xFF, 0x11, 0x22, 0x33, 0x44, 0x55, 0x66,
    ];
    assert_eq!(msg, expected);
}

#[test]
fn empty_filter_message() {
    let msg = build_set_filter_message("", &[]);
    assert_eq!(msg, vec![0x4E, 0x44, 0x01, 0x01, 0x00, 0x00, 0x00, 0x03, 0x00, 0x00, 0x00]);
}

#[test]
fn payload_length_matches_the_rest() {
    let macs = vec![[1u8, 2, 3, 4, 5, 6]; 300];
    let msg = build_set_filter_message("wlan1-guest", &macs);
    assert_eq!(msg.len(), 8 + 1 + 11 + 2 + 6 * 300);
    let plen = u32::from_be_bytes([msg[4], msg[5], msg[6], msg[7]]) as usize;
    assert_eq!(plen, msg.len() - 8);
    assert_eq!(u16::from_be_bytes([msg[20], msg[21]]), 300);
    assert_eq!(&msg[22..28], &[1, 2, 3, 4, 5, 6]);
}

#[test]
fn interface_name_length_wraps_at_256() {
    let name = "x".repeat(300);
    let msg = build_set_filter_message(&name, &[]);
    assert_eq!(msg[8], 44);
    assert_eq!(u32::from_be_bytes([msg[4], msg[5], msg[6], msg[7]]), 303);
    assert_eq!(msg.len(), 8 + 303);
}

#[test]
fn multibyte_interface_name_counts_bytes() {
    let msg = build_set_filter_message("wl\u{e9}", &[]);
    assert_eq!(msg[8], 4);
    assert_eq!(&msg[9..13], "wl\u{e9}".as_bytes());
}
