//! Key usages, the slot-array report and the state shared by the slot-array
//! keyboard variants.

use crate::utils::{sort_keycodes, zeros_trail};
use usbd_hid::descriptor::{KeyboardUsage, MediaKey, SystemControlKey};
use vstd::prelude::*;

pub mod boot;
pub mod media;
pub mod nkro;
pub mod system_control;

verus! {

/// Usage ids of the printable keys run from zero to this value.
pub open spec fn last_printable() -> u8 {
    0xDD
}

/// Usage id of the first modifier key (left control).
pub open spec fn first_modifier() -> u8 {
    0xE0
}

/// Usage id of the last modifier key (right GUI).
pub open spec fn last_modifier() -> u8 {
    0xE7
}

pub open spec fn spec_is_printable(key: u8) -> bool {
    key <= last_printable()
}

pub open spec fn spec_is_modifier(key: u8) -> bool {
    first_modifier() <= key <= last_modifier()
}

/// The usages that the consumer-control table of the HID descriptors names.
pub open spec fn spec_is_media(key: u8) -> bool {
    ||| key == 0x00
    ||| 0xB0 <= key <= 0xB2
    ||| 0xB5 <= key <= 0xB7
    ||| key == 0xB9
    ||| key == 0xBC
    ||| key == 0xCD
    ||| key == 0xE2
    ||| key == 0xE9
    ||| key == 0xEA
}

/// The usages that the system-control table of the HID descriptors names.
pub open spec fn spec_is_system_control(key: u8) -> bool {
    ||| 0x81 <= key <= 0x93
    ||| key == 0x97
    ||| key == 0x98
    ||| key == 0x9A
    ||| key == 0x9B
    ||| 0xA0 <= key <= 0xA8
    ||| 0xB0 <= key <= 0xB7
}

/// The bit of a modifier key in the modifier mask.
pub open spec fn modifier_mask(key: u8) -> u8
    recommends
        spec_is_modifier(key),
{
    1u8 << ((key - first_modifier()) as u8)
}

/// Relies on usbd_hid's `KeyboardUsage::KeypadHexadecimal`, the last printable
/// usage, being 0xDD.
#[verifier::external_body]
fn keypad_hexadecimal_usage() -> (r: u8)
    ensures
        r == last_printable(),
{
    KeyboardUsage::KeypadHexadecimal as u8
}

/// Relies on usbd_hid's `KeyboardUsage::KeyboardLeftControl`, the first
/// modifier usage, being 0xE0.
#[verifier::external_body]
fn left_control_usage() -> (r: u8)
    ensures
        r == first_modifier(),
{
    KeyboardUsage::KeyboardLeftControl as u8
}

/// Relies on usbd_hid's `KeyboardUsage::KeyboardRightGUI`, the last modifier
/// usage, being 0xE7.
#[verifier::external_body]
fn right_gui_usage() -> (r: u8)
    ensures
        r == last_modifier(),
{
    KeyboardUsage::KeyboardRightGUI as u8
}

/// Relies on usbd_hid's `From<u8> for MediaKey`: it maps exactly the usages of
/// its table to named keys and every other value to `MediaKey::Reserved`.
#[verifier::external_body]
fn media_key_is_named(key: u8) -> (r: bool)
    ensures
        r == spec_is_media(key),
{
    !matches!(MediaKey::from(key), MediaKey::Reserved)
}

/// Relies on usbd_hid's `From<u8> for SystemControlKey`: it maps exactly the
/// usages of its table to named keys and every other value to
/// `SystemControlKey::Reserved`.
#[verifier::external_body]
fn system_control_key_is_named(key: u8) -> (r: bool)
    ensures
        r == spec_is_system_control(key),
{
    !matches!(SystemControlKey::from(key), SystemControlKey::Reserved)
}

/// Whether `key` is a printable (non-modifier) keyboard usage.
pub fn is_printable(key: u8) -> (r: bool)
    ensures
        r == spec_is_printable(key),
{
    key <= keypad_hexadecimal_usage()
}

/// Whether `key` is one of the eight modifier usages.
pub fn is_modifier(key: u8) -> (r: bool)
    ensures
        r == spec_is_modifier(key),
{
    key >= left_control_usage() && key <= right_gui_usage()
}

/// Whether `key` is a media (consumer-control) usage.
pub fn is_media(key: u8) -> (r: bool)
    ensures
        r == spec_is_media(key),
{
    media_key_is_named(key)
}

/// Whether `key` is a system-control usage.
pub fn is_system_control(key: u8) -> (r: bool)
    ensures
        r == spec_is_system_control(key),
{
    system_control_key_is_named(key)
}

/// Byte of a bitfield that holds the bit of `key`.
pub fn key_to_index(key: u8) -> (r: usize)
    ensures
        r == key / 8,
{
    (key / 8) as usize
}

/// Bit of `key` within its byte of a bitfield.
pub fn key_to_printable_bitfield(key: u8) -> (r: u8)
    ensures
        r == 1u8 << (key % 8),
{
    1u8 << (key % 8)
}

/// Bit of a modifier key in the modifier mask.
pub fn key_to_modifier_bitfield(key: u8) -> (r: u8)
    requires
        spec_is_modifier(key),
    ensures
        r == modifier_mask(key),
{
    1u8 << (key - left_control_usage())
}

/// Keycode slots of the slot-array report.
pub type Keycodes = [u8; 6];

/// Six empty slots.
pub open spec fn no_keys() -> Seq<u8> {
    seq![0u8, 0u8, 0u8, 0u8, 0u8, 0u8]
}

/// A report of the slot-array variants: a modifier mask and six keycode slots,
/// zero marking an empty slot.
#[derive(Clone, Copy, Debug, PartialEq, Eq)]
pub struct KeyboardReport {
    pub modifier: u8,
    pub reserved: u8,
    pub leds: u8,
    pub keycodes: Keycodes,
}

impl Default for KeyboardReport {
    fn default() -> (r: Self)
        ensures
            r.modifier == 0,
            r.reserved == 0,
            r.leds == 0,
            r.keycodes@ == no_keys(),
    {
        let r = KeyboardReport { modifier: 0, reserved: 0, leds: 0, keycodes: [0u8; 6] };
        assert(r.keycodes@ =~= no_keys());
        r
    }
}

/// A report with no modifier and no key, as made by `default`.
pub open spec fn is_blank(r: KeyboardReport) -> bool {
    r.modifier == 0 && r.reserved == 0 && r.leds == 0 && r.keycodes@ == no_keys()
}

/// `a` and `b` agree on everything but their keycodes.
pub open spec fn same_but_keycodes(a: KeyboardReport, b: KeyboardReport) -> bool {
    a.modifier == b.modifier && a.reserved == b.reserved && a.leds == b.leds
}

/// `a` and `b` agree on everything but their modifier mask.
pub open spec fn same_but_modifier(a: KeyboardReport, b: KeyboardReport) -> bool {
    a.keycodes == b.keycodes && a.reserved == b.reserved && a.leds == b.leds
}

/// `i` is the first empty slot of `s`.
pub open spec fn is_first_empty(s: Seq<u8>, i: int) -> bool {
    0 <= i < s.len() && s[i] == 0 && forall|j: int| 0 <= j < i ==> s[j] != 0
}

pub open spec fn first_empty(s: Seq<u8>) -> int {
    choose|i: int| is_first_empty(s, i)
}

/// A press is handled when the key is already held or a slot is free.
pub open spec fn slot_press_handled(s: Seq<u8>, key: u8) -> bool {
    s.contains(key) || s.contains(0)
}

/// Slots after pressing `key`: unchanged when it is already held or no slot
/// is free, else `key` fills the first empty slot.
pub open spec fn slots_pressed(s: Seq<u8>, key: u8) -> Seq<u8> {
    if s.contains(key) || !s.contains(0) {
        s
    } else {
        s.update(first_empty(s), key)
    }
}

/// `s` with every slot that holds `key` emptied.
pub open spec fn cleared(s: Seq<u8>, key: u8) -> Seq<u8> {
    s.map_values(|x: u8| if x == key { 0u8 } else { x })
}

/// `after` is `before` with `key` released: every copy of it emptied and the
/// empty slots moved to the end. Slots are only moved where clearing left an
/// empty slot before a held one.
pub open spec fn slots_released(before: Seq<u8>, key: u8, after: Seq<u8>) -> bool {
    &&& after.to_multiset() == cleared(before, key).to_multiset()
    &&& zeros_trail(after)
    &&& zeros_trail(cleared(before, key)) ==> after == cleared(before, key)
}

/// `after` is `before` with `key` pressed into the slots; `r` is 1 when the
/// press was handled.
pub open spec fn slot_press(before: KeyboardReport, key: u8, after: KeyboardReport, r: usize) -> bool {
    &&& after.keycodes@ == slots_pressed(before.keycodes@, key)
    &&& same_but_keycodes(after, before)
    &&& r == (if slot_press_handled(before.keycodes@, key) {
        1usize
    } else {
        0usize
    })
}

/// `after` is `before` with `key` released from the slots.
pub open spec fn slot_release(before: KeyboardReport, key: u8, after: KeyboardReport) -> bool {
    slots_released(before.keycodes@, key, after.keycodes@) && same_but_keycodes(after, before)
}

/// `after` is `before` with the bit of modifier `key` set.
pub open spec fn modifier_press(before: KeyboardReport, key: u8, after: KeyboardReport) -> bool {
    after.modifier == before.modifier | modifier_mask(key) && same_but_modifier(after, before)
}

/// `after` is `before` with the bit of modifier `key` cleared.
pub open spec fn modifier_release(before: KeyboardReport, key: u8, after: KeyboardReport) -> bool {
    after.modifier == before.modifier & !modifier_mask(key) && same_but_modifier(after, before)
}

/// Press on a variant without modifiers whose keys are those for which
/// `in_domain` holds: keys outside it are not handled and change nothing.
pub open spec fn domain_press(
    before: KeyboardReport,
    key: u8,
    in_domain: bool,
    after: KeyboardReport,
    r: usize,
) -> bool {
    if in_domain {
        slot_press(before, key, after, r)
    } else {
        after == before && r == 0
    }
}

/// Release on a variant without modifiers: every slot that holds `key` is
/// emptied, whatever the key, and the release is always handled.
pub open spec fn domain_release(before: KeyboardReport, key: u8, after: KeyboardReport, r: usize) -> bool {
    r == 1 && slot_release(before, key, after)
}

/// The report a slot-array variant has to send: the current one, when its
/// keycodes differ from those the host last received.
pub open spec fn slot_next_report(current: KeyboardReport, previous: KeyboardReport) -> Option<
    KeyboardReport,
> {
    if current.keycodes@ != previous.keycodes@ {
        Some(current)
    } else {
        None
    }
}

/// The first empty slot is the one that `first_empty` picks.
pub proof fn lemma_first_empty_unique(s: Seq<u8>, i: int)
    requires
        is_first_empty(s, i),
    ensures
        first_empty(s) == i,
{
}

proof fn lemma_first_empty_exists(s: Seq<u8>, n: int)
    requires
        0 <= n <= s.len(),
        exists|z: int| 0 <= z < n && s[z] == 0,
    ensures
        is_first_empty(s, first_empty(s)),
    decreases n,
{
    if exists|z: int| 0 <= z < n - 1 && s[z] == 0 {
        lemma_first_empty_exists(s, n - 1);
    } else {
        assert(is_first_empty(s, n - 1));
    }
}

/// Releasing a key that no slot holds, from slots whose empty ones come last,
/// changes nothing.
proof fn lemma_release_absent(before: KeyboardReport, key: u8, after: KeyboardReport)
    requires
        zeros_trail(before.keycodes@),
        key == 0 || !before.keycodes@.contains(key),
        slot_release(before, key, after),
    ensures
        after == before,
{
    assert(cleared(before.keycodes@, key) =~= before.keycodes@);
    assert(after.keycodes =~= before.keycodes);
}

/// Releasing the same key twice changes nothing the second time; releasing a
/// key that no slot holds changes nothing at all.
pub proof fn lemma_slot_release_twice(
    s0: KeyboardReport,
    key: u8,
    s1: KeyboardReport,
    s2: KeyboardReport,
)
    requires
        zeros_trail(s0.keycodes@),
        slot_release(s0, key, s1),
        slot_release(s1, key, s2),
    ensures
        s2 == s1,
        key == 0 || !s0.keycodes@.contains(key) ==> s1 == s0,
{
    broadcast use vstd::seq_lib::group_to_multiset_ensures;

    if key != 0 {
        let c = cleared(s0.keycodes@, key);
        assert(!c.contains(key));
        assert(c.to_multiset().count(key) == 0);
        assert(!s1.keycodes@.contains(key));
    }
    lemma_release_absent(s1, key, s2);
    if key == 0 || !s0.keycodes@.contains(key) {
        lemma_release_absent(s0, key, s1);
    }
}

/// Pressing a key that no slot holds and releasing it again gives back the
/// slots as they were, whether or not a slot was free.
pub proof fn lemma_slot_press_release(
    s0: KeyboardReport,
    key: u8,
    s1: KeyboardReport,
    r: usize,
    s2: KeyboardReport,
)
    requires
        zeros_trail(s0.keycodes@),
        key == 0 || !s0.keycodes@.contains(key),
        slot_press(s0, key, s1, r),
        slot_release(s1, key, s2),
    ensures
        s2 == s0,
{
    let s = s0.keycodes@;
    if key != 0 && s.contains(0) {
        lemma_first_empty_exists(s, s.len() as int);
        assert(cleared(s1.keycodes@, key) =~= s);
    } else {
        assert(cleared(s1.keycodes@, key) =~= s);
    }
    assert(s2.keycodes =~= s0.keycodes);
}

/// Pressing a key that no slot holds when every slot is taken is not handled
/// and changes nothing: the report keeps the keys it had.
pub proof fn lemma_slot_press_when_full(
    before: KeyboardReport,
    key: u8,
    after: KeyboardReport,
    r: usize,
)
    requires
        !before.keycodes@.contains(0),
        !before.keycodes@.contains(key),
        slot_press(before, key, after, r),
    ensures
        r == 0,
        after == before,
{
    assert(after.keycodes =~= before.keycodes);
}

/// Once the report that `next_report` gave has reached the host, a slot-array
/// variant has nothing more to send until a key changes.
pub proof fn lemma_slot_send_settles(current: KeyboardReport, previous: KeyboardReport)
    ensures
        slot_next_report(current, previous) matches Some(sent) ==> slot_next_report(
            current,
            sent,
        ) is None,
{
}

/// Bit facts behind setting and clearing one bit of a mask.
pub proof fn lemma_mask_bit(x: u8, b: u8)
    ensures
        x & b == 0 ==> (x | b) & !b == x,
        x & b == 0 ==> x & !b == x,
        (x & !b) & !b == x & !b,
{
    assert(x & b == 0 ==> (x | b) & !b == x) by (bit_vector);
    assert(x & b == 0 ==> x & !b == x) by (bit_vector);
    assert((x & !b) & !b == x & !b) by (bit_vector);
}

/// On a variant without modifiers, pressing a key of its domain that no slot
/// holds and releasing it again gives back the report as it was.
pub proof fn lemma_domain_press_release(
    s0: KeyboardReport,
    key: u8,
    in_domain: bool,
    s1: KeyboardReport,
    r1: usize,
    s2: KeyboardReport,
    r2: usize,
)
    requires
        zeros_trail(s0.keycodes@),
        in_domain,
        key == 0 || !s0.keycodes@.contains(key),
        domain_press(s0, key, in_domain, s1, r1),
        domain_release(s1, key, s2, r2),
    ensures
        s2 == s0,
{
    lemma_slot_press_release(s0, key, s1, r1, s2);
}

/// On a variant without modifiers, releasing a key twice changes nothing the
/// second time; releasing a key that no slot holds changes nothing at all.
pub proof fn lemma_domain_release_twice(
    s0: KeyboardReport,
    key: u8,
    s1: KeyboardReport,
    r1: usize,
    s2: KeyboardReport,
    r2: usize,
)
    requires
        zeros_trail(s0.keycodes@),
        domain_release(s0, key, s1, r1),
        domain_release(s1, key, s2, r2),
    ensures
        s2 == s1,
        key == 0 || !s0.keycodes@.contains(key) ==> s1 == s0,
{
    lemma_slot_release_twice(s0, key, s1, s2);
}

/// Current and last-sent reports of a slot-array variant. The empty slots of
/// the current report always come after the held ones.
pub struct ReportState {
    report: KeyboardReport,
    last_report: KeyboardReport,
}

impl ReportState {
    #[verifier::type_invariant]
    pub closed spec fn wf(self) -> bool {
        zeros_trail(self.report.keycodes@)
    }

    /// A well-formed state has the empty slots of its current report last.
    pub proof fn lemma_wf(self)
        requires
            self.wf(),
        ensures
            zeros_trail(self.current().keycodes@),
    {
    }

    /// The report that press and release work on.
    pub closed spec fn current(self) -> KeyboardReport {
        self.report
    }

    /// The last report that reached the host.
    pub closed spec fn previous(self) -> KeyboardReport {
        self.last_report
    }

    /// Both reports empty.
    pub fn new() -> (r: Self)
        ensures
            is_blank(r.current()),
            r.previous() == r.current(),
            zeros_trail(r.current().keycodes@),
    {
        let report = KeyboardReport::default();
        assert(zeros_trail(report.keycodes@));
        ReportState { report, last_report: report }
    }

    pub fn report(&self) -> (r: &KeyboardReport)
        ensures
            *r == self.current(),
    {
        &self.report
    }

    pub fn last_report(&self) -> (r: &KeyboardReport)
        ensures
            *r == self.previous(),
    {
        &self.last_report
    }

    /// Puts `key` in the slots: nothing changes when it is already there;
    /// otherwise it takes the first empty slot. Returns 0 when no slot is free.
    pub fn press_key(&mut self, key: u8) -> (r: usize)
        ensures
            slot_press(old(self).current(), key, final(self).current(), r),
            final(self).previous() == old(self).previous(),
            zeros_trail(final(self).current().keycodes@),
    {
        proof {
            use_type_invariant(&*self);
        }
        let ghost s = self.report.keycodes@;
        let mut i: usize = 0;
        while i < 6
            invariant
                0 <= i <= 6,
                *self == *old(self),
                zeros_trail(s),
                s == self.report.keycodes@,
                s.len() == 6,
                forall|j: int| 0 <= j < i ==> s[j] != key && s[j] != 0,
            decreases 6 - i,
        {
            if self.report.keycodes[i] == key {
                assert(s.contains(key));
                return 1;
            }
            if self.report.keycodes[i] == 0 {
                proof {
                    lemma_first_empty_unique(s, i as int);
                    assert(s.contains(0));
                    assert(!s.contains(key)) by {
                        if s.contains(key) {
                            let k = choose|k: int| 0 <= k < s.len() && s[k] == key;
                            assert(k >= i);
                            assert(s[k] == 0);
                        }
                    }
                }
                let mut keys = self.report.keycodes;
                keys[i] = key;
                assert(keys@ =~= s.update(i as int, key));
                self.report.keycodes = keys;
                return 1;
            }
            i += 1;
        }
        assert(!s.contains(key) && !s.contains(0));
        0
    }

    /// Empties every slot that holds `key`, then moves the empty slots to the
    /// end.
    pub fn release_key(&mut self, key: u8)
        ensures
            slot_release(old(self).current(), key, final(self).current()),
            final(self).previous() == old(self).previous(),
            zeros_trail(final(self).current().keycodes@),
    {
        proof {
            use_type_invariant(&*self);
        }
        let mut keys = self.report.keycodes;
        let ghost s = keys@;
        let mut i: usize = 0;
        while i < 6
            invariant
                0 <= i <= 6,
                s.len() == 6,
                keys@.len() == 6,
                forall|j: int| 0 <= j < i ==> keys@[j] == cleared(s, key)[j],
                forall|j: int| i <= j < 6 ==> keys@[j] == s[j],
            decreases 6 - i,
        {
            if keys[i] == key {
                keys[i] = 0;
            }
            i += 1;
        }
        assert(keys@ =~= cleared(s, key));
        sort_keycodes(&mut keys);
        self.report.keycodes = keys;
    }

    /// Sets the bit of a modifier key.
    pub fn press_modifier(&mut self, key: u8)
        requires
            spec_is_modifier(key),
        ensures
            modifier_press(old(self).current(), key, final(self).current()),
            final(self).previous() == old(self).previous(),
            zeros_trail(final(self).current().keycodes@),
    {
        proof {
            use_type_invariant(&*self);
        }
        self.report.modifier = self.report.modifier | key_to_modifier_bitfield(key);
    }

    /// Clears the bit of a modifier key.
    pub fn release_modifier(&mut self, key: u8)
        requires
            spec_is_modifier(key),
        ensures
            modifier_release(old(self).current(), key, final(self).current()),
            final(self).previous() == old(self).previous(),
            zeros_trail(final(self).current().keycodes@),
    {
        proof {
            use_type_invariant(&*self);
        }
        self.report.modifier = self.report.modifier & !key_to_modifier_bitfield(key);
    }

    /// Whether a slot of the current report holds `key`.
    pub fn holds_key(&self, key: u8) -> (r: bool)
        ensures
            r == self.current().keycodes@.contains(key),
    {
        slots_hold(&self.report.keycodes, key)
    }

    /// Whether a slot of the last sent report holds `key`.
    pub fn held_key(&self, key: u8) -> (r: bool)
        ensures
            r == self.previous().keycodes@.contains(key),
    {
        slots_hold(&self.last_report.keycodes, key)
    }

    /// Whether the current report holds the modifier `key`.
    pub fn is_modifier_active(&self, key: u8) -> (r: bool)
        ensures
            r == (spec_is_modifier(key) && self.current().modifier & modifier_mask(key) != 0),
    {
        is_modifier(key) && self.report.modifier & key_to_modifier_bitfield(key) != 0
    }

    /// Whether the last sent report held the modifier `key`.
    pub fn was_modifier_active(&self, key: u8) -> (r: bool)
        ensures
            r == (spec_is_modifier(key) && self.previous().modifier & modifier_mask(key) != 0),
    {
        is_modifier(key) && self.last_report.modifier & key_to_modifier_bitfield(key) != 0
    }

    pub fn is_any_modifier_active(&self) -> (r: bool)
        ensures
            r == (self.current().modifier != 0),
    {
        self.report.modifier > 0
    }

    pub fn was_any_modifier_active(&self) -> (r: bool)
        ensures
            r == (self.previous().modifier != 0),
    {
        self.last_report.modifier > 0
    }

    /// Clears every modifier and empties every slot of the current report.
    pub fn release_all(&mut self)
        ensures
            final(self).current().modifier == 0,
            final(self).current().keycodes@ == no_keys(),
            final(self).current().reserved == old(self).current().reserved,
            final(self).current().leds == old(self).current().leds,
            final(self).previous() == old(self).previous(),
            zeros_trail(final(self).current().keycodes@),
    {
        proof {
            use_type_invariant(&*self);
        }
        let keys: Keycodes = [0u8; 6];
        assert(keys@ =~= no_keys());
        self.report.modifier = 0;
        self.report.keycodes = keys;
    }

    /// Whether the keycodes of the current report differ from those last sent.
    pub fn keycodes_changed(&self) -> (r: bool)
        ensures
            r == (self.current().keycodes@ != self.previous().keycodes@),
    {
        let mut i: usize = 0;
        while i < 6
            invariant
                0 <= i <= 6,
                forall|j: int| 0 <= j < i ==> self.report.keycodes@[j] == self.last_report.keycodes@[j],
            decreases 6 - i,
        {
            if self.report.keycodes[i] != self.last_report.keycodes[i] {
                return true;
            }
            i += 1;
        }
        assert(self.report.keycodes@ =~= self.last_report.keycodes@);
        false
    }

    /// The report to send next, if the host is behind: the whole current
    /// report, when its keycodes changed. A modifier change alone sends
    /// nothing.
    pub fn next_report(&self) -> (r: Option<KeyboardReport>)
        ensures
            r == slot_next_report(self.current(), self.previous()),
    {
        if self.keycodes_changed() {
            Some(self.report)
        } else {
            None
        }
    }

    /// Records that `report` reached the host.
    pub fn report_sent(&mut self, report: KeyboardReport)
        ensures
            final(self).previous() == report,
            final(self).current() == old(self).current(),
    {
        proof {
            use_type_invariant(&*self);
        }
        self.last_report = report;
    }

    /// The leds byte of the current report.
    pub fn leds(&self) -> (r: u8)
        ensures
            r == self.current().leds,
    {
        self.report.leds
    }
}

/// Whether some slot holds `key`.
fn slots_hold(keys: &Keycodes, key: u8) -> (r: bool)
    ensures
        r == keys@.contains(key),
{
    let mut i: usize = 0;
    while i < 6
        invariant
            0 <= i <= 6,
            forall|j: int| 0 <= j < i ==> keys@[j] != key,
        decreases 6 - i,
    {
        if keys[i] == key {
            return true;
        }
        i += 1;
    }
    false
}

} // verus!
