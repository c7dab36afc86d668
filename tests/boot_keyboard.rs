use keyboardio::boot::Keyboard;
use keyboardio::KeyboardReport;
use usbd_hid::hid_class::HidProtocolMode;

fn send_all(kb: &mut Keyboard) -> Vec<KeyboardReport> {
    let mut sent = Vec::new();
    while let Some(report) = kb.next_report() {
        sent.push(report);
        kb.report_sent(report);
    }
    sent
}

#[test]
fn boot_new_is_blank() {
    let kb = Keyboard::new(HidProtocolMode::Report);
    assert_eq!(*kb.report(), KeyboardReport::default());
    assert_eq!(*kb.last_report(), KeyboardReport::default());
    assert_eq!(kb.idle(), 0);
    assert_eq!(kb.leds(), 0);
    assert!(!kb.keycodes_changed());
}

#[test]
fn boot_press_fills_first_empty_slot() {
    let mut kb = Keyboard::new(HidProtocolMode::Report);
    assert_eq!(kb.press(0x04), 1);
    assert_eq!(kb.press(0x05), 1);
    assert_eq!(kb.report().keycodes, [0x04, 0x05, 0, 0, 0, 0]);
    assert_eq!(kb.press(0x04), 1);
    assert_eq!(kb.report().keycodes, [0x04, 0x05, 0, 0, 0, 0]);
    assert!(kb.is_key_pressed(0x04));
    assert!(!kb.is_key_pressed(0x06));
}

#[test]
fn boot_press_modifier_sets_bit() {
    let mut kb = Keyboard::new(HidProtocolMode::Report);
    assert_eq!(kb.press(0xE1), 1);
    assert_eq!(kb.press(0xE7), 1);
    assert_eq!(kb.report().modifier, 0x82);
    assert_eq!(kb.report().keycodes, [0; 6]);
    assert!(kb.is_modifier_active(0xE1));
    assert!(!kb.is_modifier_active(0xE0));
    assert!(kb.is_any_modifier_active());
    assert!(!kb.was_any_modifier_active());
    assert!(!kb.was_modifier_active(0xE1));
}

#[test]
fn boot_press_outside_domain_is_not_handled() {
    let mut kb = Keyboard::new(HidProtocolMode::Report);
    assert_eq!(kb.press(0xDE), 0);
    assert_eq!(kb.press(0xE8), 0);
    assert_eq!(kb.press(0xFF), 0);
    assert_eq!(*kb.report(), KeyboardReport::default());
}

#[test]
fn boot_seventh_key_is_dropped() {
    let mut kb = Keyboard::new(HidProtocolMode::Report);
    for key in 0x04..=0x09u8 {
        assert_eq!(kb.press(key), 1);
    }
    assert_eq!(kb.press(0x0A), 0);
    assert_eq!(kb.report().keycodes, [0x04, 0x05, 0x06, 0x07, 0x08, 0x09]);
    assert!(!kb.is_key_pressed(0x0A));
    // a key that is already held is still handled
    assert_eq!(kb.press(0x06), 1);
}

#[test]
fn boot_release_moves_empty_slots_last() {
    let mut kb = Keyboard::new(HidProtocolMode::Report);
    kb.press(0x04);
    kb.press(0x05);
    kb.press(0x06);
    assert_eq!(kb.release(0x04), 1);
    assert_eq!(kb.report().keycodes, [0x06, 0x05, 0, 0, 0, 0]);
    assert_eq!(kb.release(0x05), 1);
    assert_eq!(kb.report().keycodes, [0x06, 0, 0, 0, 0, 0]);
}

#[test]
fn boot_release_of_key_not_held_changes_nothing() {
    let mut kb = Keyboard::new(HidProtocolMode::Report);
    kb.press(0x04);
    kb.press(0xE0);
    let before = *kb.report();
    assert_eq!(kb.release(0x07), 1);
    assert_eq!(*kb.report(), before);
    assert_eq!(kb.release(0x07), 1);
    assert_eq!(*kb.report(), before);
    assert_eq!(kb.release(0xE3), 1);
    assert_eq!(*kb.report(), before);
}

#[test]
fn boot_release_twice() {
    let mut kb = Keyboard::new(HidProtocolMode::Report);
    kb.press(0x04);
    kb.press(0x05);
    kb.release(0x04);
    let once = *kb.report();
    kb.release(0x04);
    assert_eq!(*kb.report(), once);
}

#[test]
fn boot_press_release_round_trip() {
    let mut kb = Keyboard::new(HidProtocolMode::Report);
    kb.press(0x04);
    kb.press(0x05);
    kb.press(0xE0);
    let before = *kb.report();
    kb.press(0x06);
    kb.release(0x06);
    assert_eq!(*kb.report(), before);
    kb.press(0xE2);
    kb.release(0xE2);
    assert_eq!(*kb.report(), before);
}

#[test]
fn boot_sends_when_keycodes_change() {
    let mut kb = Keyboard::new(HidProtocolMode::Report);
    kb.press(0xE1);
    // a modifier change alone is not sent
    assert_eq!(kb.next_report(), None);
    kb.press(0x04);
    let sent = send_all(&mut kb);
    assert_eq!(sent.len(), 1);
    assert_eq!(sent[0].modifier, 0x02);
    assert_eq!(sent[0].keycodes, [0x04, 0, 0, 0, 0, 0]);
    assert_eq!(*kb.last_report(), sent[0]);
    assert!(kb.was_key_pressed(0x04));
    assert!(kb.was_modifier_active(0xE1));
    // nothing is left to send
    assert_eq!(send_all(&mut kb).len(), 0);
}

#[test]
fn boot_failed_send_is_offered_again() {
    let mut kb = Keyboard::new(HidProtocolMode::Report);
    kb.press(0x04);
    let first = kb.next_report().unwrap();
    // the transport failed: nothing is recorded
    assert_eq!(kb.next_report(), Some(first));
    assert!(!kb.was_key_pressed(0x04));
    kb.report_sent(first);
    assert_eq!(kb.next_report(), None);
}

#[test]
fn boot_release_all_then_send() {
    let mut kb = Keyboard::new(HidProtocolMode::Report);
    kb.press(0x04);
    kb.press(0xE0);
    send_all(&mut kb);
    kb.release_all();
    assert_eq!(kb.report().modifier, 0);
    assert_eq!(kb.report().keycodes, [0; 6]);
    let sent = send_all(&mut kb);
    assert_eq!(sent, vec![KeyboardReport::default()]);
}

#[test]
fn boot_usb_reset_restores_default_protocol() {
    let mut kb = Keyboard::new(HidProtocolMode::Report);
    assert_eq!(kb.protocol(), HidProtocolMode::Report);
    kb.set_protocol(HidProtocolMode::Boot);
    assert_eq!(kb.protocol(), HidProtocolMode::Boot);
    assert_eq!(kb.default_protocol(), HidProtocolMode::Report);
    kb.on_usb_reset();
    assert_eq!(kb.protocol(), HidProtocolMode::Report);
}

#[test]
fn boot_empty_slot_is_no_pressed_key() {
    let mut kb = Keyboard::new(HidProtocolMode::Report);
    assert!(!kb.is_key_pressed(0));
    assert!(!kb.was_key_pressed(0));
    kb.press(0x04);
    kb.report_sent(*kb.report());
    assert!(!kb.is_key_pressed(0));
    assert!(!kb.was_key_pressed(0));
    assert!(kb.is_key_pressed(0x04));
}
