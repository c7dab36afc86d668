//! The media keyboard: up to six media keys held in slots, no modifiers.

use crate::keyboard::{
    domain_press, domain_release, is_blank, no_keys, slot_next_report, is_media, spec_is_media, KeyboardReport,
    ReportState,
};
use crate::utils::zeros_trail;
use vstd::prelude::*;

verus! {

/// State of a media keyboard.
pub struct MediaKeyboard {
    state: ReportState,
}

impl MediaKeyboard {
    /// The report that press and release work on.
    pub closed spec fn current(self) -> KeyboardReport {
        self.state.current()
    }

    /// The last report that reached the host.
    pub closed spec fn previous(self) -> KeyboardReport {
        self.state.previous()
    }

    /// A keyboard with no key held, whose host has seen no key either.
    pub fn new() -> (r: Self)
        ensures
            is_blank(r.current()),
            r.previous() == r.current(),
            zeros_trail(r.current().keycodes@),
    {
        MediaKeyboard { state: ReportState::new() }
    }

    pub fn report(&self) -> (r: &KeyboardReport)
        ensures
            *r == self.current(),
    {
        self.state.report()
    }

    pub fn last_report(&self) -> (r: &KeyboardReport)
        ensures
            *r == self.previous(),
    {
        self.state.last_report()
    }

    /// Adds a media key to the current report. Returns 1 when the key is
    /// held afterwards, 0 when it is no media key or every slot is taken.
    pub fn press(&mut self, key: u8) -> (r: usize)
        ensures
            domain_press(old(self).current(), key, spec_is_media(key), final(self).current(), r),
            final(self).previous() == old(self).previous(),
            zeros_trail(final(self).current().keycodes@),
    {
        proof {
            use_type_invariant(&self.state);
            self.state.lemma_wf();
        }
        if is_media(key) {
            self.state.press_key(key)
        } else {
            0
        }
    }

    /// Empties every slot that holds `key`, then moves the empty slots to the
    /// end. Always returns 1, also for a key that was not held.
    pub fn release(&mut self, key: u8) -> (r: usize)
        ensures
            domain_release(old(self).current(), key, final(self).current(), r),
            final(self).previous() == old(self).previous(),
            zeros_trail(final(self).current().keycodes@),
    {
        proof {
            use_type_invariant(&self.state);
            self.state.lemma_wf();
        }
        self.state.release_key(key);
        1
    }

    /// Whether the current report holds the media key `key`.
    pub fn is_key_pressed(&self, key: u8) -> (r: bool)
        ensures
            r == (key != 0 && spec_is_media(key) && self.current().keycodes@.contains(key)),
    {
        key != 0 && is_media(key) && self.state.holds_key(key)
    }

    /// Whether the last sent report held the media key `key`.
    pub fn was_key_pressed(&self, key: u8) -> (r: bool)
        ensures
            r == (key != 0 && spec_is_media(key) && self.previous().keycodes@.contains(key)),
    {
        key != 0 && is_media(key) && self.state.held_key(key)
    }

    /// Empties every slot of the current report.
    pub fn release_all(&mut self)
        ensures
            final(self).current().keycodes@ == no_keys(),
            final(self).current().modifier == 0,
            final(self).current().reserved == old(self).current().reserved,
            final(self).current().leds == old(self).current().leds,
            final(self).previous() == old(self).previous(),
            zeros_trail(final(self).current().keycodes@),
    {
        self.state.release_all()
    }

    /// Whether the keycodes of the current report differ from those last sent.
    pub fn keycodes_changed(&self) -> (r: bool)
        ensures
            r == (self.current().keycodes@ != self.previous().keycodes@),
    {
        self.state.keycodes_changed()
    }

    /// The report to send next, if the host is behind.
    pub fn next_report(&self) -> (r: Option<KeyboardReport>)
        ensures
            r == slot_next_report(self.current(), self.previous()),
    {
        self.state.next_report()
    }

    /// Records that `report` reached the host.
    pub fn report_sent(&mut self, report: KeyboardReport)
        ensures
            final(self).previous() == report,
            final(self).current() == old(self).current(),
    {
        self.state.report_sent(report)
    }
}

} // verus!
