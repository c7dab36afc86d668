//! The boot keyboard: a modifier mask and up to six printable keys held in
//! slots, readable by minimal HID parsers, with its protocol mode.

use crate::keyboard::{
    lemma_mask_bit, lemma_slot_press_release, lemma_slot_release_twice, is_blank, is_modifier, is_printable, modifier_mask, modifier_press, modifier_release, no_keys,
    slot_next_report, slot_press, slot_release, spec_is_modifier, spec_is_printable,
    KeyboardReport, ReportState,
};
use crate::utils::zeros_trail;
use usbd_hid::hid_class::HidProtocolMode;
use vstd::prelude::*;

verus! {

#[verifier::external_type_specification]
#[verifier::external_body]
pub struct ExHidProtocolMode(HidProtocolMode);

/// `after` is `before` with `key` pressed on a boot keyboard: a modifier sets
/// its bit, a printable key goes into the slots, any other key is not handled.
pub open spec fn boot_press(before: KeyboardReport, key: u8, after: KeyboardReport, r: usize) -> bool {
    if spec_is_modifier(key) {
        modifier_press(before, key, after) && r == 1
    } else if spec_is_printable(key) {
        slot_press(before, key, after, r)
    } else {
        after == before && r == 0
    }
}

/// `after` is `before` with `key` released on a boot keyboard: a modifier
/// clears its bit, any other key leaves the slots. Always handled.
pub open spec fn boot_release(before: KeyboardReport, key: u8, after: KeyboardReport, r: usize) -> bool {
    &&& r == 1
    &&& if spec_is_modifier(key) {
        modifier_release(before, key, after)
    } else {
        slot_release(before, key, after)
    }
}

/// Pressing a printable key that no slot holds, or a modifier that is not
/// set, and releasing it again gives back the report as it was.
pub proof fn lemma_boot_press_release(
    s0: KeyboardReport,
    key: u8,
    s1: KeyboardReport,
    r1: usize,
    s2: KeyboardReport,
    r2: usize,
)
    requires
        zeros_trail(s0.keycodes@),
        spec_is_printable(key) || spec_is_modifier(key),
        spec_is_modifier(key) ==> s0.modifier & modifier_mask(key) == 0,
        spec_is_printable(key) ==> key == 0 || !s0.keycodes@.contains(key),
        boot_press(s0, key, s1, r1),
        boot_release(s1, key, s2, r2),
    ensures
        s2 == s0,
{
    if spec_is_modifier(key) {
        lemma_mask_bit(s0.modifier, modifier_mask(key));
    } else {
        lemma_slot_press_release(s0, key, s1, r1, s2);
    }
}

/// Releasing a key twice changes nothing the second time; releasing a key
/// that is not held changes nothing at all.
pub proof fn lemma_boot_release_twice(
    s0: KeyboardReport,
    key: u8,
    s1: KeyboardReport,
    r1: usize,
    s2: KeyboardReport,
    r2: usize,
)
    requires
        zeros_trail(s0.keycodes@),
        boot_release(s0, key, s1, r1),
        boot_release(s1, key, s2, r2),
    ensures
        s2 == s1,
        spec_is_modifier(key) && s0.modifier & modifier_mask(key) == 0 ==> s1 == s0,
        !spec_is_modifier(key) && (key == 0 || !s0.keycodes@.contains(key)) ==> s1 == s0,
{
    if spec_is_modifier(key) {
        lemma_mask_bit(s0.modifier, modifier_mask(key));
    } else {
        lemma_slot_release_twice(s0, key, s1, s2);
    }
}

/// State of a boot keyboard.
pub struct Keyboard {
    state: ReportState,
    default_protocol: HidProtocolMode,
    protocol: HidProtocolMode,
    idle: u8,
}

impl Keyboard {
    /// The report that press and release work on.
    pub closed spec fn current(self) -> KeyboardReport {
        self.state.current()
    }

    /// The last report that reached the host.
    pub closed spec fn previous(self) -> KeyboardReport {
        self.state.previous()
    }

    /// The protocol mode in force.
    pub closed spec fn active_protocol(self) -> HidProtocolMode {
        self.protocol
    }

    /// The protocol mode that a USB reset restores.
    pub closed spec fn reset_protocol(self) -> HidProtocolMode {
        self.default_protocol
    }

    pub closed spec fn idle_rate(self) -> u8 {
        self.idle
    }

    /// `self` and `other` have the same protocol settings.
    pub open spec fn same_settings(self, other: Self) -> bool {
        &&& self.active_protocol() == other.active_protocol()
        &&& self.reset_protocol() == other.reset_protocol()
        &&& self.idle_rate() == other.idle_rate()
    }

    /// A keyboard with no key held, in `default_protocol`, which a USB reset
    /// restores.
    pub fn new(default_protocol: HidProtocolMode) -> (r: Self)
        ensures
            is_blank(r.current()),
            r.previous() == r.current(),
            zeros_trail(r.current().keycodes@),
            r.active_protocol() == default_protocol,
            r.reset_protocol() == default_protocol,
            r.idle_rate() == 0,
    {
        Keyboard { state: ReportState::new(), default_protocol, protocol: default_protocol, idle: 0 }
    }

    pub fn protocol(&self) -> (r: HidProtocolMode)
        ensures
            r == self.active_protocol(),
    {
        self.protocol
    }

    pub fn set_protocol(&mut self, protocol: HidProtocolMode)
        ensures
            final(self).active_protocol() == protocol,
            final(self).reset_protocol() == old(self).reset_protocol(),
            final(self).idle_rate() == old(self).idle_rate(),
            final(self).current() == old(self).current(),
            final(self).previous() == old(self).previous(),
    {
        self.protocol = protocol;
    }

    pub fn default_protocol(&self) -> (r: HidProtocolMode)
        ensures
            r == self.reset_protocol(),
    {
        self.default_protocol
    }

    /// Goes back to the default protocol mode after a USB reset.
    pub fn on_usb_reset(&mut self)
        ensures
            final(self).active_protocol() == old(self).reset_protocol(),
            final(self).reset_protocol() == old(self).reset_protocol(),
            final(self).idle_rate() == old(self).idle_rate(),
            final(self).current() == old(self).current(),
            final(self).previous() == old(self).previous(),
    {
        self.protocol = self.default_protocol;
    }

    pub fn idle(&self) -> (r: u8)
        ensures
            r == self.idle_rate(),
    {
        self.idle
    }

    pub fn report(&self) -> (r: &KeyboardReport)
        ensures
            *r == self.current(),
    {
        self.state.report()
    }

    pub fn last_report(&self) -> (r: &KeyboardReport)
        ensures
            *r == self.previous(),
    {
        self.state.last_report()
    }

    /// The leds byte of the current report.
    pub fn leds(&self) -> (r: u8)
        ensures
            r == self.current().leds,
    {
        self.state.leds()
    }

    /// Adds a key to the current report: a modifier sets its bit, a printable
    /// key takes a slot. Returns 1 when the key is held afterwards, 0 when it is
    /// neither or every slot is taken.
    pub fn press(&mut self, key: u8) -> (r: usize)
        ensures
            boot_press(old(self).current(), key, final(self).current(), r),
            final(self).previous() == old(self).previous(),
            zeros_trail(final(self).current().keycodes@),
            final(self).same_settings(*old(self)),
    {
        proof {
            use_type_invariant(&self.state);
            self.state.lemma_wf();
        }
        if is_modifier(key) {
            self.state.press_modifier(key);
            1
        } else if is_printable(key) {
            self.state.press_key(key)
        } else {
            0
        }
    }

    /// Removes a key from the current report. Always returns 1, also for a key
    /// that was not held.
    pub fn release(&mut self, key: u8) -> (r: usize)
        ensures
            boot_release(old(self).current(), key, final(self).current(), r),
            final(self).previous() == old(self).previous(),
            zeros_trail(final(self).current().keycodes@),
            final(self).same_settings(*old(self)),
    {
        if is_modifier(key) {
            self.state.release_modifier(key);
        } else {
            self.state.release_key(key);
        }
        1
    }

    /// Whether the current report holds the printable key `key`.
    pub fn is_key_pressed(&self, key: u8) -> (r: bool)
        ensures
            r == (key != 0 && spec_is_printable(key) && self.current().keycodes@.contains(key)),
    {
        key != 0 && is_printable(key) && self.state.holds_key(key)
    }

    /// Whether the last sent report held the printable key `key`.
    pub fn was_key_pressed(&self, key: u8) -> (r: bool)
        ensures
            r == (key != 0 && spec_is_printable(key) && self.previous().keycodes@.contains(key)),
    {
        key != 0 && is_printable(key) && self.state.held_key(key)
    }

    /// Whether the current report holds the modifier `key`.
    pub fn is_modifier_active(&self, key: u8) -> (r: bool)
        ensures
            r == (spec_is_modifier(key) && self.current().modifier & modifier_mask(key) != 0),
    {
        self.state.is_modifier_active(key)
    }

    /// Whether the last sent report held the modifier `key`.
    pub fn was_modifier_active(&self, key: u8) -> (r: bool)
        ensures
            r == (spec_is_modifier(key) && self.previous().modifier & modifier_mask(key) != 0),
    {
        self.state.was_modifier_active(key)
    }

    pub fn is_any_modifier_active(&self) -> (r: bool)
        ensures
            r == (self.current().modifier != 0),
    {
        self.state.is_any_modifier_active()
    }

    pub fn was_any_modifier_active(&self) -> (r: bool)
        ensures
            r == (self.previous().modifier != 0),
    {
        self.state.was_any_modifier_active()
    }

    /// Clears every modifier and empties every slot of the current report.
    pub fn release_all(&mut self)
        ensures
            final(self).current().keycodes@ == no_keys(),
            final(self).current().modifier == 0,
            final(self).current().reserved == old(self).current().reserved,
            final(self).current().leds == old(self).current().leds,
            final(self).previous() == old(self).previous(),
            zeros_trail(final(self).current().keycodes@),
            final(self).same_settings(*old(self)),
    {
        self.state.release_all()
    }

    /// Whether the keycodes of the current report differ from those last sent.
    pub fn keycodes_changed(&self) -> (r: bool)
        ensures
            r == (self.current().keycodes@ != self.previous().keycodes@),
    {
        self.state.keycodes_changed()
    }

    /// The report to send next, if the host is behind: the whole current
    /// report, when its keycodes changed.
    pub fn next_report(&self) -> (r: Option<KeyboardReport>)
        ensures
            r == slot_next_report(self.current(), self.previous()),
    {
        self.state.next_report()
    }

    /// Records that `report` reached the host.
    pub fn report_sent(&mut self, report: KeyboardReport)
        ensures
            final(self).previous() == report,
            final(self).current() == old(self).current(),
            final(self).same_settings(*old(self)),
    {
        self.state.report_sent(report)
    }
}

} // verus!
