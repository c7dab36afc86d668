//! The NKRO keyboard: one bit for each printable key and a modifier mask. Its
//! changes reach the host in an order that the host cannot misread.

use crate::keyboard::{
    is_modifier, is_printable, key_to_index, key_to_modifier_bitfield, key_to_printable_bitfield,
    modifier_mask, spec_is_modifier, spec_is_printable,
};
use vstd::prelude::*;

verus! {

/// Bytes of the NKRO key bitfield: one bit for each printable usage.
pub const NKRO_KEYCODE_BYTES: usize = 28;

/// An NKRO report: bit `k % 8` of byte `k / 8` of `keycodes` is set when the
/// printable key `k` is held.
#[derive(Clone, Copy, Debug, PartialEq, Eq)]
pub struct NKROKeyboardReport {
    pub modifier: u8,
    pub reserved: u8,
    pub leds: u8,
    pub keycodes: [u8; NKRO_KEYCODE_BYTES],
}

/// A bitfield with no key held.
pub open spec fn no_key_bits() -> Seq<u8> {
    Seq::new(NKRO_KEYCODE_BYTES as nat, |i: int| 0u8)
}

/// The bit of `key` within its byte.
pub open spec fn key_bit(key: u8) -> u8 {
    1u8 << (key % 8)
}

pub open spec fn key_held(bits: Seq<u8>, key: u8) -> bool {
    bits[key as int / 8] & key_bit(key) != 0
}

/// `bits` with the bit of `key` set.
pub open spec fn with_key(bits: Seq<u8>, key: u8) -> Seq<u8> {
    bits.update(key as int / 8, bits[key as int / 8] | key_bit(key))
}

/// `bits` with the bit of `key` cleared.
pub open spec fn without_key(bits: Seq<u8>, key: u8) -> Seq<u8> {
    bits.update(key as int / 8, bits[key as int / 8] & !key_bit(key))
}

/// The keys of `before` that `after` still holds.
pub open spec fn retained(before: Seq<u8>, after: Seq<u8>) -> Seq<u8> {
    Seq::new(before.len(), |i: int| before[i] & after[i])
}

/// `a` and `b` agree on everything but their keycodes.
pub open spec fn same_but_keycodes(a: NKROKeyboardReport, b: NKROKeyboardReport) -> bool {
    a.modifier == b.modifier && a.reserved == b.reserved && a.leds == b.leds
}

/// `a` and `b` agree on everything but their modifier mask.
pub open spec fn same_but_modifier(a: NKROKeyboardReport, b: NKROKeyboardReport) -> bool {
    a.keycodes == b.keycodes && a.reserved == b.reserved && a.leds == b.leds
}

/// `after` is `before` with `key` pressed: a printable key sets its bit, a
/// modifier its bit of the mask; any other key is not handled.
pub open spec fn nkro_press(
    before: NKROKeyboardReport,
    key: u8,
    after: NKROKeyboardReport,
    r: usize,
) -> bool {
    if spec_is_printable(key) {
        after.keycodes@ == with_key(before.keycodes@, key) && same_but_keycodes(after, before) && r
            == 1
    } else if spec_is_modifier(key) {
        after.modifier == before.modifier | modifier_mask(key) && same_but_modifier(after, before)
            && r == 1
    } else {
        after == before && r == 0
    }
}

/// `after` is `before` with `key` released: the bit that a press sets is
/// cleared; any other key is not handled.
pub open spec fn nkro_release(
    before: NKROKeyboardReport,
    key: u8,
    after: NKROKeyboardReport,
    r: usize,
) -> bool {
    if spec_is_printable(key) {
        after.keycodes@ == without_key(before.keycodes@, key) && same_but_keycodes(after, before)
            && r == 1
    } else if spec_is_modifier(key) {
        after.modifier == before.modifier & !modifier_mask(key) && same_but_modifier(after, before)
            && r == 1
    } else {
        after == before && r == 0
    }
}

/// What a report tells the host: the modifier mask and the key bitfield.
pub struct Snapshot {
    pub modifier: u8,
    pub keys: Seq<u8>,
}

pub open spec fn snapshot(r: NKROKeyboardReport) -> Snapshot {
    Snapshot { modifier: r.modifier, keys: r.keycodes@ }
}

/// The next report to send when the host holds `previous` and the keyboard
/// `current`. Keys released go first, under the old modifiers; then the
/// modifiers change; keys pressed come last, under the new modifiers.
pub open spec fn nkro_next(previous: Snapshot, current: Snapshot) -> Option<Snapshot> {
    let kept = retained(previous.keys, current.keys);
    if previous.modifier != current.modifier {
        if kept != previous.keys {
            Some(Snapshot { modifier: previous.modifier, keys: kept })
        } else {
            Some(Snapshot { modifier: current.modifier, keys: previous.keys })
        }
    } else if previous.keys != current.keys {
        Some(Snapshot { modifier: current.modifier, keys: current.keys })
    } else {
        None
    }
}

/// All the reports that bring the host from `previous` to `current`: the
/// removals under the old modifiers, when the modifiers change and some key was
/// released; the modifier change; the additions, when keys still differ.
pub open spec fn send_sequence(previous: Snapshot, current: Snapshot) -> Seq<Snapshot> {
    let kept = retained(previous.keys, current.keys);
    let modifiers_change = previous.modifier != current.modifier;
    let removal = if modifiers_change && kept != previous.keys {
        seq![Snapshot { modifier: previous.modifier, keys: kept }]
    } else {
        Seq::empty()
    };
    let modifiers = if modifiers_change {
        seq![Snapshot { modifier: current.modifier, keys: kept }]
    } else {
        Seq::empty()
    };
    let keys_sent = if modifiers_change {
        kept
    } else {
        previous.keys
    };
    let additions = if keys_sent != current.keys {
        seq![Snapshot { modifier: current.modifier, keys: current.keys }]
    } else {
        Seq::empty()
    };
    removal + modifiers + additions
}

/// Sending `nkro_next` and recording it each time, starting with the host at
/// `previous`, sends `reports` in this order and leaves nothing to send.
pub open spec fn delivers(previous: Snapshot, current: Snapshot, reports: Seq<Snapshot>) -> bool
    decreases reports.len(),
{
    if reports.len() == 0 {
        nkro_next(previous, current) is None
    } else {
        nkro_next(previous, current) == Some(reports[0]) && delivers(
            reports[0],
            current,
            reports.drop_first(),
        )
    }
}

/// The report whose snapshot is `nkro_next`, carrying the other fields of the
/// last sent report.
pub open spec fn is_next_report(
    r: Option<NKROKeyboardReport>,
    current: NKROKeyboardReport,
    previous: NKROKeyboardReport,
) -> bool {
    match r {
        Some(report) => {
            &&& nkro_next(snapshot(previous), snapshot(current)) == Some(snapshot(report))
            &&& report.reserved == previous.reserved
            &&& report.leds == previous.leds
        },
        None => nkro_next(snapshot(previous), snapshot(current)) is None,
    }
}

proof fn lemma_retained_idempotent(a: Seq<u8>, b: Seq<u8>)
    requires
        a.len() == b.len(),
    ensures
        retained(retained(a, b), b) == retained(a, b),
{
    assert forall|i: int| 0 <= i < a.len() implies retained(retained(a, b), b)[i] == retained(
        a,
        b,
    )[i] by {
        let x = a[i];
        let y = b[i];
        assert((x & y) & y == x & y) by (bit_vector);
    }
    assert(retained(retained(a, b), b) =~= retained(a, b));
}

proof fn lemma_key_bit_nonzero(key: u8)
    ensures
        0u8 | key_bit(key) != 0,
{
    assert(0u8 | (1u8 << (key % 8)) != 0) by (bit_vector);
}

/// Sending what `next_report` gives and recording it, over and over, sends
/// exactly `send_sequence`: at most three reports, after which nothing is left
/// to send until a key changes.
pub proof fn lemma_send_sequence(previous: Snapshot, current: Snapshot)
    requires
        previous.keys.len() == current.keys.len(),
    ensures
        delivers(previous, current, send_sequence(previous, current)),
        send_sequence(previous, current).len() <= 3,
{
    reveal_with_fuel(delivers, 4);
    lemma_retained_idempotent(previous.keys, current.keys);
    let kept = retained(previous.keys, current.keys);
    let seq = send_sequence(previous, current);
    if previous.modifier != current.modifier {
        let m = Snapshot { modifier: current.modifier, keys: kept };
        if kept != previous.keys {
            let r = Snapshot { modifier: previous.modifier, keys: kept };
            assert(nkro_next(r, current) == Some(m));
            if kept != current.keys {
                assert(seq.drop_first() =~= seq![m, current]);
                assert(seq.drop_first().drop_first() =~= seq![current]);
            } else {
                assert(seq.drop_first() =~= seq![m]);
            }
        } else {
            if kept != current.keys {
                assert(seq.drop_first() =~= seq![current]);
            }
        }
    }
}

/// Releasing a key while the modifiers change: the host first sees the key go
/// under the old modifiers, then the new modifiers, and never the key under the
/// new modifiers.
pub proof fn lemma_release_before_modifier_change(m1: u8, m2: u8, a: u8)
    requires
        m1 != m2,
        spec_is_printable(a),
    ensures
        ({
            let previous = Snapshot { modifier: m1, keys: with_key(no_key_bits(), a) };
            let current = Snapshot { modifier: m2, keys: no_key_bits() };
            &&& send_sequence(previous, current) == seq![
                Snapshot { modifier: m1, keys: no_key_bits() },
                Snapshot { modifier: m2, keys: no_key_bits() },
            ]
            &&& !send_sequence(previous, current).contains(
                Snapshot { modifier: m2, keys: with_key(no_key_bits(), a) },
            )
        }),
{
    let previous = Snapshot { modifier: m1, keys: with_key(no_key_bits(), a) };
    let current = Snapshot { modifier: m2, keys: no_key_bits() };
    let held = with_key(no_key_bits(), a);
    lemma_key_bit_nonzero(a);
    assert(held[a as int / 8] != 0);
    assert(held != no_key_bits());
    assert forall|i: int| 0 <= i < held.len() implies held[i] & 0u8 == 0u8 by {
        let x = held[i];
        assert(x & 0u8 == 0u8) by (bit_vector);
    }
    assert(retained(held, no_key_bits()) =~= no_key_bits());
    let seq = send_sequence(previous, current);
    assert(seq =~= seq![
        Snapshot { modifier: m1, keys: no_key_bits() },
        Snapshot { modifier: m2, keys: no_key_bits() },
    ]);
    assert(seq[0] != Snapshot { modifier: m2, keys: held });
    assert(seq[1] != Snapshot { modifier: m2, keys: held });
}

/// Pressing a key while the modifiers change: the host first sees the new
/// modifiers alone, then the key under them, and never the key under the old
/// modifiers.
pub proof fn lemma_modifier_change_before_press(m1: u8, m2: u8, b: u8)
    requires
        m1 != m2,
        spec_is_printable(b),
    ensures
        ({
            let previous = Snapshot { modifier: m1, keys: no_key_bits() };
            let current = Snapshot { modifier: m2, keys: with_key(no_key_bits(), b) };
            &&& send_sequence(previous, current) == seq![
                Snapshot { modifier: m2, keys: no_key_bits() },
                Snapshot { modifier: m2, keys: with_key(no_key_bits(), b) },
            ]
            &&& forall|i: int|
                0 <= i < send_sequence(previous, current).len() ==> !(#[trigger] send_sequence(
                    previous,
                    current,
                )[i].modifier == m1 && key_held(send_sequence(previous, current)[i].keys, b))
        }),
{
    let previous = Snapshot { modifier: m1, keys: no_key_bits() };
    let current = Snapshot { modifier: m2, keys: with_key(no_key_bits(), b) };
    let held = with_key(no_key_bits(), b);
    lemma_key_bit_nonzero(b);
    assert(held[b as int / 8] != 0);
    assert(held != no_key_bits());
    assert forall|i: int| 0 <= i < held.len() implies 0u8 & held[i] == 0u8 by {
        let x = held[i];
        assert(0u8 & x == 0u8) by (bit_vector);
    }
    assert(retained(no_key_bits(), held) =~= no_key_bits());
    let seq = send_sequence(previous, current);
    assert(seq =~= seq![
        Snapshot { modifier: m2, keys: no_key_bits() },
        Snapshot { modifier: m2, keys: held },
    ]);
}

/// Pressing a key that is not held and releasing it again gives back the
/// report as it was.
pub proof fn lemma_nkro_press_release(
    s0: NKROKeyboardReport,
    key: u8,
    s1: NKROKeyboardReport,
    r1: usize,
    s2: NKROKeyboardReport,
    r2: usize,
)
    requires
        spec_is_printable(key) || spec_is_modifier(key),
        spec_is_printable(key) ==> !key_held(s0.keycodes@, key),
        spec_is_modifier(key) ==> s0.modifier & modifier_mask(key) == 0,
        nkro_press(s0, key, s1, r1),
        nkro_release(s1, key, s2, r2),
    ensures
        s2 == s0,
        r1 == 1 && r2 == 1,
{
    if spec_is_printable(key) {
        let k = key as int / 8;
        let x = s0.keycodes@[k];
        assert(x & (1u8 << (key % 8)) == 0 ==> (x | (1u8 << (key % 8))) & !(1u8 << (key % 8))
            == x) by (bit_vector);
        assert(s2.keycodes =~= s0.keycodes);
    } else {
        let x = s0.modifier;
        let b = modifier_mask(key);
        assert(x & b == 0 ==> (x | b) & !b == x) by (bit_vector);
    }
}

/// Releasing a key twice changes nothing the second time; releasing a key
/// that is not held changes nothing at all.
pub proof fn lemma_nkro_release_twice(
    s0: NKROKeyboardReport,
    key: u8,
    s1: NKROKeyboardReport,
    r1: usize,
    s2: NKROKeyboardReport,
    r2: usize,
)
    requires
        nkro_release(s0, key, s1, r1),
        nkro_release(s1, key, s2, r2),
    ensures
        s2 == s1,
        spec_is_printable(key) && !key_held(s0.keycodes@, key) ==> s1 == s0,
        spec_is_modifier(key) && s0.modifier & modifier_mask(key) == 0 ==> s1 == s0,
{
    if spec_is_printable(key) {
        let k = key as int / 8;
        let x = s0.keycodes@[k];
        assert((x & !(1u8 << (key % 8))) & !(1u8 << (key % 8)) == x & !(1u8 << (key % 8)))
            by (bit_vector);
        assert(x & (1u8 << (key % 8)) == 0 ==> x & !(1u8 << (key % 8)) == x) by (bit_vector);
        assert(s2.keycodes =~= s1.keycodes);
        if !key_held(s0.keycodes@, key) {
            assert(s1.keycodes =~= s0.keycodes);
        }
    } else if spec_is_modifier(key) {
        let x = s0.modifier;
        let b = modifier_mask(key);
        assert((x & !b) & !b == x & !b) by (bit_vector);
        assert(x & b == 0 ==> x & !b == x) by (bit_vector);
    }
}

/// State of an NKRO keyboard.
pub struct NKROKeyboard {
    report: NKROKeyboardReport,
    last_report: NKROKeyboardReport,
}

impl NKROKeyboard {
    /// The report that press and release work on.
    pub closed spec fn current(self) -> NKROKeyboardReport {
        self.report
    }

    /// The last report that reached the host.
    pub closed spec fn previous(self) -> NKROKeyboardReport {
        self.last_report
    }

    /// A keyboard with no key held, whose host has seen no key either.
    pub fn new() -> (r: Self)
        ensures
            r.current().modifier == 0,
            r.current().reserved == 0,
            r.current().leds == 0,
            r.current().keycodes@ == no_key_bits(),
            r.previous() == r.current(),
    {
        let report = NKROKeyboardReport {
            modifier: 0,
            reserved: 0,
            leds: 0,
            keycodes: [0u8; NKRO_KEYCODE_BYTES],
        };
        assert(report.keycodes@ =~= no_key_bits());
        NKROKeyboard { report, last_report: report }
    }

    pub fn report(&self) -> (r: &NKROKeyboardReport)
        ensures
            *r == self.current(),
    {
        &self.report
    }

    pub fn last_report(&self) -> (r: &NKROKeyboardReport)
        ensures
            *r == self.previous(),
    {
        &self.last_report
    }

    /// The leds byte of the current report.
    pub fn leds(&self) -> (r: u8)
        ensures
            r == self.current().leds,
    {
        self.report.leds
    }

    /// Sets the bit of a printable key or a modifier. Returns 1 for those,
    /// 0 for any other key; there is no limit on how many keys are held.
    pub fn press(&mut self, key: u8) -> (r: usize)
        ensures
            nkro_press(old(self).current(), key, final(self).current(), r),
            final(self).previous() == old(self).previous(),
    {
        if is_printable(key) {
            let i = key_to_index(key);
            let mut keys = self.report.keycodes;
            keys[i] = keys[i] | key_to_printable_bitfield(key);
            assert(keys@ =~= with_key(old(self).report.keycodes@, key));
            self.report.keycodes = keys;
            1
        } else if is_modifier(key) {
            self.report.modifier = self.report.modifier | key_to_modifier_bitfield(key);
            1
        } else {
            0
        }
    }

    /// Clears the bit of a printable key or a modifier, whether it was set or
    /// not. Returns 1 for those, 0 for any other key.
    pub fn release(&mut self, key: u8) -> (r: usize)
        ensures
            nkro_release(old(self).current(), key, final(self).current(), r),
            final(self).previous() == old(self).previous(),
    {
        if is_printable(key) {
            let i = key_to_index(key);
            let mut keys = self.report.keycodes;
            keys[i] = keys[i] & !key_to_printable_bitfield(key);
            assert(keys@ =~= without_key(old(self).report.keycodes@, key));
            self.report.keycodes = keys;
            1
        } else if is_modifier(key) {
            self.report.modifier = self.report.modifier & !key_to_modifier_bitfield(key);
            1
        } else {
            0
        }
    }

    /// Whether the current report holds the printable key `key`.
    pub fn is_key_pressed(&self, key: u8) -> (r: bool)
        ensures
            r == (spec_is_printable(key) && key_held(self.current().keycodes@, key)),
    {
        is_printable(key) && self.report.keycodes[key_to_index(key)] & key_to_printable_bitfield(
            key,
        ) != 0
    }

    /// Whether the last sent report held the printable key `key`.
    pub fn was_key_pressed(&self, key: u8) -> (r: bool)
        ensures
            r == (spec_is_printable(key) && key_held(self.previous().keycodes@, key)),
    {
        is_printable(key) && self.last_report.keycodes[key_to_index(key)]
            & key_to_printable_bitfield(key) != 0
    }

    /// Whether the current report holds the modifier `key`.
    pub fn is_modifier_active(&self, key: u8) -> (r: bool)
        ensures
            r == (spec_is_modifier(key) && self.current().modifier & modifier_mask(key) != 0),
    {
        is_modifier(key) && self.report.modifier & key_to_modifier_bitfield(key) != 0
    }

    /// Whether the last sent report held the modifier `key`.
    pub fn was_modifier_active(&self, key: u8) -> (r: bool)
        ensures
            r == (spec_is_modifier(key) && self.previous().modifier & modifier_mask(key) != 0),
    {
        is_modifier(key) && self.last_report.modifier & key_to_modifier_bitfield(key) != 0
    }

    pub fn is_any_modifier_active(&self) -> (r: bool)
        ensures
            r == (self.current().modifier != 0),
    {
        self.report.modifier > 0
    }

    pub fn was_any_modifier_active(&self) -> (r: bool)
        ensures
            r == (self.previous().modifier != 0),
    {
        self.last_report.modifier > 0
    }

    /// Clears every modifier and every key of the current report.
    pub fn release_all(&mut self)
        ensures
            final(self).current().modifier == 0,
            final(self).current().keycodes@ == no_key_bits(),
            final(self).current().reserved == old(self).current().reserved,
            final(self).current().leds == old(self).current().leds,
            final(self).previous() == old(self).previous(),
    {
        let keys = [0u8; NKRO_KEYCODE_BYTES];
        assert(keys@ =~= no_key_bits());
        self.report.modifier = 0;
        self.report.keycodes = keys;
    }

    /// Whether the key bitfield of the current report differs from the one
    /// last sent.
    pub fn keycodes_changed(&self) -> (r: bool)
        ensures
            r == (self.current().keycodes@ != self.previous().keycodes@),
    {
        let mut i: usize = 0;
        while i < NKRO_KEYCODE_BYTES
            invariant
                0 <= i <= NKRO_KEYCODE_BYTES,
                forall|j: int|
                    0 <= j < i ==> self.report.keycodes@[j] == self.last_report.keycodes@[j],
            decreases NKRO_KEYCODE_BYTES - i,
        {
            if self.report.keycodes[i] != self.last_report.keycodes[i] {
                return true;
            }
            i += 1;
        }
        assert(self.report.keycodes@ =~= self.last_report.keycodes@);
        false
    }

    /// The report to send next, if the host is behind; see `nkro_next`. After
    /// it reaches the host, `report_sent` records it and the next call gives
    /// the following one.
    pub fn next_report(&self) -> (r: Option<NKROKeyboardReport>)
        ensures
            is_next_report(r, self.current(), self.previous()),
    {
        let old_modifiers = self.last_report.modifier;
        let new_modifiers = self.report.modifier;
        let changed_modifiers = old_modifiers ^ new_modifiers;
        assert(changed_modifiers != 0 <==> old_modifiers != new_modifiers) by (bit_vector)
            requires
                changed_modifiers == old_modifiers ^ new_modifiers,
        ;
        let ghost prev = self.last_report.keycodes@;
        let ghost cur = self.report.keycodes@;
        if changed_modifiers != 0 {
            // drop the keys that were released from what the host holds
            let mut kept = self.last_report.keycodes;
            let mut toggled_off = false;
            let mut i: usize = 0;
            while i < NKRO_KEYCODE_BYTES
                invariant
                    0 <= i <= NKRO_KEYCODE_BYTES,
                    prev == self.last_report.keycodes@,
                    cur == self.report.keycodes@,
                    forall|j: int| 0 <= j < i ==> kept@[j] == prev[j] & cur[j],
                    forall|j: int| i <= j < NKRO_KEYCODE_BYTES ==> kept@[j] == prev[j],
                    toggled_off <==> exists|j: int| 0 <= j < i && prev[j] & cur[j] != prev[j],
                decreases NKRO_KEYCODE_BYTES - i,
            {
                let p = kept[i];
                let c = self.report.keycodes[i];
                let released_keycodes = p & !c;
                assert((p & !c) != 0 <==> (p & c) != p) by (bit_vector);
                assert(p & !(p & !c) == p & c) by (bit_vector);
                if released_keycodes != 0 {
                    kept[i] = p & !released_keycodes;
                    toggled_off = true;
                }
                proof {
                    let k = i as int;
                    assert(p == prev[k] && c == cur[k]);
                    if released_keycodes != 0 {
                        assert(prev[k] & cur[k] != prev[k]);
                    } else {
                        assert(prev[k] & cur[k] == prev[k]);
                    }
                }
                i += 1;
            }
            assert(kept@ =~= retained(prev, cur));
            if toggled_off {
                Some(
                    NKROKeyboardReport {
                        modifier: old_modifiers,
                        reserved: self.last_report.reserved,
                        leds: self.last_report.leds,
                        keycodes: kept,
                    },
                )
            } else {
                assert(retained(prev, cur) =~= prev);
                Some(
                    NKROKeyboardReport {
                        modifier: new_modifiers,
                        reserved: self.last_report.reserved,
                        leds: self.last_report.leds,
                        keycodes: self.last_report.keycodes,
                    },
                )
            }
        } else if self.keycodes_changed() {
            Some(
                NKROKeyboardReport {
                    modifier: old_modifiers,
                    reserved: self.last_report.reserved,
                    leds: self.last_report.leds,
                    keycodes: self.report.keycodes,
                },
            )
        } else {
            None
        }
    }

    /// Records that `report` reached the host.
    pub fn report_sent(&mut self, report: NKROKeyboardReport)
        ensures
            final(self).previous() == report,
            final(self).current() == old(self).current(),
    {
        self.last_report = report;
    }
}

} // verus!
