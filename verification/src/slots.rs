//! The set of slot indices, kept in a bit set.

use vstd::prelude::*;
use bit_set::BitSet;

verus! {

/// A set of slot indices, one bit per index.
#[verifier::external_body]
pub struct SlotSet {
    bits: BitSet,
}

/// The indices that a slot set holds.
pub uninterp spec fn members(set: SlotSet) -> Set<usize>;

impl SlotSet {
    /// `BitSet::with_capacity`: a set that holds nothing, with room for the
    /// indices below `capacity`.
    #[verifier::external_body]
    pub(crate) fn with_capacity(capacity: usize) -> (set: SlotSet)
        ensures
            members(set) == Set::<usize>::empty(),
    {
        SlotSet { bits: BitSet::with_capacity(capacity) }
    }

    /// `BitSet::insert`: the index is in the set afterwards and nothing else
    /// changed; the result says whether it was new. The bit vector below grows
    /// to hold `slot + 1` bits, which the largest index cannot have.
    #[verifier::external_body]
    pub(crate) fn insert(&mut self, slot: usize) -> (fresh: bool)
        requires
            slot < usize::MAX,
        ensures
            members(*final(self)) == members(*old(self)).insert(slot),
            fresh == !members(*old(self)).contains(slot),
    {
        self.bits.insert(slot)
    }

    /// `BitSet::remove`: the index is not in the set afterwards and nothing
    /// else changed; the result says whether it was there.
    #[verifier::external_body]
    pub(crate) fn remove(&mut self, slot: usize) -> (present: bool)
        ensures
            members(*final(self)) == members(*old(self)).remove(slot),
            present == members(*old(self)).contains(slot),
    {
        self.bits.remove(slot)
    }

    /// `BitSet::iter`: every index of the set once, the smaller before the
    /// larger. The iterator walks the blocks of the bit vector from the first
    /// and takes the lowest set bit of a block first.
    #[verifier::external_body]
    pub(crate) fn ascending(&self) -> (slots: Vec<usize>)
        ensures
            forall|i: int, j: int| 0 <= i < j < slots@.len() ==> slots@[i] < slots@[j],
            forall|i: int| 0 <= i < slots@.len() ==> members(*self).contains(#[trigger] slots@[i]),
            forall|slot: usize| members(*self).contains(slot) ==> slots@.contains(slot),
    {
        self.bits.iter().collect()
    }
}

} // verus!
