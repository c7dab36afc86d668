//! Helpers on raw keycode slot arrays.

use vstd::prelude::*;

verus! {

/// Every empty (zero) slot is followed only by empty slots.
pub open spec fn zeros_trail(s: Seq<u8>) -> bool {
    forall|i: int, j: int| 0 <= i < j < s.len() && s[i] == 0 ==> s[j] == 0
}

/// `s` with the values at `i` and `j` exchanged.
pub open spec fn swapped(s: Seq<u8>, i: int, j: int) -> Seq<u8> {
    s.update(i, s[j]).update(j, s[i])
}

/// Exchanging two values of a sequence keeps its multiset of values.
pub proof fn lemma_swapped_multiset(s: Seq<u8>, i: int, j: int)
    requires
        0 <= i < s.len(),
        0 <= j < s.len(),
    ensures
        swapped(s, i, j).to_multiset() == s.to_multiset(),
{
    broadcast use vstd::seq_lib::group_to_multiset_ensures;

    let t = swapped(s, i, j);
    if i != j {
        let (lo, hi) = if i < j {
            (i, j)
        } else {
            (j, i)
        };
        assert(t.remove(hi).remove(lo) =~= s.remove(hi).remove(lo));
        let rest = s.remove(hi).remove(lo).to_multiset();
        assert(s.remove(hi)[lo] == s[lo]);
        assert(t.remove(hi)[lo] == t[lo]);
        assert(s.to_multiset() =~= rest.insert(s[lo]).insert(s[hi]));
        assert(t.to_multiset() =~= rest.insert(t[lo]).insert(t[hi]));
    } else {
        assert(t =~= s);
    }
}

/// Exchanges the values at `left_idx` and `right_idx` with three XORs.
///
/// Nothing happens when either index is out of bounds, or when the two values
/// are equal: an XOR exchange of equal values would zero both.
pub fn xor_swap(slice: &mut [u8], left_idx: usize, right_idx: usize)
    ensures
        left_idx < old(slice)@.len() && right_idx < old(slice)@.len() ==> final(slice)@ == swapped(
            old(slice)@,
            left_idx as int,
            right_idx as int,
        ),
        !(left_idx < old(slice)@.len() && right_idx < old(slice)@.len()) ==> final(slice)@ == old(
            slice,
        )@,
{
    let len = slice.len();
    if left_idx < len && right_idx < len && slice[left_idx] != slice[right_idx] {
        let a: u8 = slice[left_idx];
        let b: u8 = slice[right_idx];
        // mix both values into the left slot
        slice[left_idx] = slice[left_idx] ^ slice[right_idx];
        // taking the right value out of the mix leaves the left value
        slice[right_idx] = slice[right_idx] ^ slice[left_idx];
        // taking the left value out of the mix leaves the right value
        slice[left_idx] = slice[left_idx] ^ slice[right_idx];
        assert(b ^ (a ^ b) == a && (a ^ b) ^ a == b) by (bit_vector);
        assert(slice@ =~= swapped(old(slice)@, left_idx as int, right_idx as int));
    } else if left_idx < len && right_idx < len {
        assert(slice@ =~= swapped(old(slice)@, left_idx as int, right_idx as int));
    }
}

/// Rearranges the slots so that the empty (zero) ones come last.
///
/// Some hosts stop reading a keycode array at its first empty slot, so a live
/// key behind an empty slot would be lost to them. The order among non-empty
/// slots is not kept; the values themselves are. An array that already has its
/// empty slots at the end is left as it is.
pub fn sort_keycodes(keys: &mut [u8])
    ensures
        final(keys)@.to_multiset() == old(keys)@.to_multiset(),
        final(keys)@.len() == old(keys)@.len(),
        zeros_trail(final(keys)@),
        zeros_trail(old(keys)@) ==> final(keys)@ == old(keys)@,
{
    let len = keys.len();
    if len == 0 {
        return;
    }
    let mut front_idx: usize = 0;
    let mut back_idx: usize = len - 1;

    // move empty slots from the front towards the end
    while front_idx < back_idx
        invariant
            len == keys@.len(),
            len == old(keys)@.len(),
            back_idx < len,
            front_idx <= back_idx + 1,
            keys@.to_multiset() == old(keys)@.to_multiset(),
            forall|j: int| back_idx < j < len ==> keys@[j] == 0,
            forall|i: int| 0 <= i < front_idx ==> keys@[i] != 0 || i >= back_idx,
            zeros_trail(old(keys)@) ==> keys@ == old(keys)@,
        decreases len - front_idx,
    {
        if keys[front_idx] == 0 {
            // look for a non-empty slot, walking back from the end towards the front
            while keys[back_idx] == 0 && back_idx > front_idx
                invariant
                    len == keys@.len(),
                    back_idx < len,
                    front_idx <= back_idx,
                    forall|j: int| back_idx < j < len ==> keys@[j] == 0,
                decreases back_idx,
            {
                back_idx -= 1;
            }
            proof {
                lemma_swapped_multiset(keys@, front_idx as int, back_idx as int);
            }
            xor_swap(keys, front_idx, back_idx);
        }
        front_idx += 1;
    }
}

} // verus!
