use keyboardio::{
    is_media, is_modifier, is_printable, is_system_control, key_to_index,
    key_to_modifier_bitfield, key_to_printable_bitfield, HIDReportId, HStderr,
};

#[test]
fn printable_range_ends_at_keypad_hexadecimal() {
    assert!(is_printable(0x00));
    assert!(is_printable(0xDD));
    assert!(!is_printable(0xDE));
    assert!(!is_printable(0xE0));
}

#[test]
fn modifier_range_is_left_control_to_right_gui() {
    assert!(!is_modifier(0xDF));
    assert!(is_modifier(0xE0));
    assert!(is_modifier(0xE7));
    assert!(!is_modifier(0xE8));
}

#[test]
fn media_keys_follow_the_consumer_table() {
    for key in [0x00u8, 0xB0, 0xB2, 0xB5, 0xB9, 0xBC, 0xCD, 0xE2, 0xE9, 0xEA] {
        assert!(is_media(key), "{:#x}", key);
    }
    for key in [0x01u8, 0xB3, 0xB8, 0xCE, 0xE3, 0xEB, 0xFF] {
        assert!(!is_media(key), "{:#x}", key);
    }
}

#[test]
fn system_control_keys_follow_the_system_table() {
    for key in [0x81u8, 0x93, 0x97, 0x98, 0x9A, 0x9B, 0xA0, 0xA8, 0xB0, 0xB7] {
        assert!(is_system_control(key), "{:#x}", key);
    }
    for key in [0x80u8, 0x94, 0x99, 0x9C, 0xA9, 0xAF, 0xB8, 0x00] {
        assert!(!is_system_control(key), "{:#x}", key);
    }
}

#[test]
fn bitfield_positions() {
    assert_eq!(key_to_index(0x04), 0);
    assert_eq!(key_to_index(0xDD), 27);
    assert_eq!(key_to_printable_bitfield(0x21), 0x02);
    assert_eq!(key_to_printable_bitfield(0x07), 0x80);
    assert_eq!(key_to_modifier_bitfield(0xE0), 0x01);
    assert_eq!(key_to_modifier_bitfield(0xE7), 0x80);
}

#[test]
fn report_id_defaults_to_no_id() {
    assert_eq!(HIDReportId::default(), HIDReportId::NoId);
}

#[test]
fn hstderr_keeps_start_of_message() {
    let mut err = HStderr::new();
    assert!(err.buffer().iter().all(|b| *b == 0));
    err.write_str("abc");
    assert_eq!(&err.buffer()[..4], b"abc\0");
    let long = "x".repeat(2000);
    err.write_str(&long);
    assert!(err.buffer().iter().all(|b| *b == b'x'));
    err.write_str("yz");
    assert_eq!(&err.buffer()[..3], b"yzx");
}
