use keyboardio::system_control::Keyboard as SystemControlKeyboard;
use keyboardio::{KeyboardReport, MediaKeyboard};

#[test]
fn media_press_takes_media_keys_only() {
    let mut kb = MediaKeyboard::new();
    assert_eq!(kb.press(0xB0), 1);
    assert_eq!(kb.press(0xE9), 1);
    assert_eq!(kb.press(0x04), 0);
    assert_eq!(kb.press(0xEB), 0);
    assert_eq!(kb.report().keycodes, [0xB0, 0xE9, 0, 0, 0, 0]);
    assert!(kb.is_key_pressed(0xB0));
    assert!(!kb.is_key_pressed(0x04));
}

#[test]
fn media_seventh_key_is_dropped() {
    let mut kb = MediaKeyboard::new();
    for key in [0xB0u8, 0xB1, 0xB2, 0xB5, 0xB6, 0xB7] {
        assert_eq!(kb.press(key), 1);
    }
    assert_eq!(kb.press(0xCD), 0);
    assert_eq!(kb.report().keycodes, [0xB0, 0xB1, 0xB2, 0xB5, 0xB6, 0xB7]);
}

#[test]
fn media_release_and_send() {
    let mut kb = MediaKeyboard::new();
    kb.press(0xB0);
    kb.press(0xB1);
    assert_eq!(kb.release(0xB0), 1);
    assert_eq!(kb.report().keycodes, [0xB1, 0, 0, 0, 0, 0]);
    assert_eq!(kb.release(0x04), 1);
    assert_eq!(kb.report().keycodes, [0xB1, 0, 0, 0, 0, 0]);
    let sent = kb.next_report().unwrap();
    kb.report_sent(sent);
    assert!(kb.was_key_pressed(0xB1));
    assert_eq!(kb.next_report(), None);
    kb.release_all();
    assert!(kb.keycodes_changed());
    assert_eq!(kb.next_report(), Some(KeyboardReport::default()));
}

#[test]
fn media_press_release_round_trip() {
    let mut kb = MediaKeyboard::new();
    kb.press(0xCD);
    let before = *kb.report();
    kb.press(0xE2);
    kb.release(0xE2);
    assert_eq!(*kb.report(), before);
}

#[test]
fn system_control_press_takes_system_keys_only() {
    let mut kb = SystemControlKeyboard::new();
    assert_eq!(kb.press(0x81), 1);
    assert_eq!(kb.press(0x94), 0);
    assert_eq!(kb.press(0xB8), 0);
    assert_eq!(kb.press(0xB7), 1);
    assert_eq!(kb.report().keycodes, [0x81, 0xB7, 0, 0, 0, 0]);
    assert!(kb.is_key_pressed(0xB7));
    assert_eq!(kb.release(0x81), 1);
    assert_eq!(kb.report().keycodes, [0xB7, 0, 0, 0, 0, 0]);
    assert_eq!(kb.next_report(), Some(*kb.report()));
    kb.report_sent(*kb.report());
    assert_eq!(kb.next_report(), None);
    assert!(kb.was_key_pressed(0xB7));
    assert!(!kb.was_key_pressed(0x81));
}

#[test]
fn media_empty_slot_is_no_pressed_key() {
    let mut kb = MediaKeyboard::new();
    assert!(!kb.is_key_pressed(0));
    assert!(!kb.was_key_pressed(0));
    assert_eq!(kb.press(0), 1);
    assert_eq!(*kb.report(), KeyboardReport::default());
    assert!(!kb.is_key_pressed(0));
}

#[test]
fn system_control_release_always_handled() {
    let mut kb = SystemControlKeyboard::new();
    kb.press(0x82);
    assert_eq!(kb.release(0x04), 1);
    assert_eq!(kb.report().keycodes, [0x82, 0, 0, 0, 0, 0]);
    assert_eq!(kb.release(0x82), 1);
    assert_eq!(*kb.report(), KeyboardReport::default());
}
