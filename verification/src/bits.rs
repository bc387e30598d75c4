//! The spellbook's consumed-set: a six-bit flag set stored in a `bitvec`
//! bit-array over a single byte.
//!
//! The set is modelled in contracts as the `Set<int>` of bit positions that
//! are set; the three operations the rules need (an empty set, a membership
//! test, setting one bit) are trusted wrappers around `bitvec`.

use vstd::prelude::*;

verus! {

/// A set of consumed face indices, backed by a `bitvec` bit-array.
#[verifier::external_body]
pub struct ConsumedSet {
    bits: bitvec::array::BitArray<u8>,
}

/// The set of bit positions that hold a one in the consumed-set's byte.
pub uninterp spec fn consumed_bits(b: ConsumedSet) -> Set<int>;

impl Clone for ConsumedSet {
    /// Relies on bitvec's `BitArray` being plain data: the copy holds the
    /// same bits.
    #[verifier::external_body]
    fn clone(&self) -> (r: Self)
        ensures
            consumed_bits(r) == consumed_bits(*self),
    {
        ConsumedSet { bits: self.bits }
    }
}

impl Copy for ConsumedSet {}

impl ConsumedSet {
    /// Relies on bitvec's `BitArray::ZERO`: an all-zero backing byte has no
    /// bit set.
    #[verifier::external_body]
    pub fn none() -> (r: ConsumedSet)
        ensures
            consumed_bits(r) == Set::<int>::empty(),
    {
        ConsumedSet { bits: bitvec::array::BitArray::ZERO }
    }

    /// Relies on bitvec's `BitSlice` indexing: reads the bit at the given
    /// in-bounds position.
    #[verifier::external_body]
    pub fn contains(&self, i: usize) -> (r: bool)
        requires
            i < 6,
        ensures
            r == consumed_bits(*self).contains(i as int),
    {
        self.bits[i]
    }

    /// Relies on bitvec's `BitSlice::set`: writes a one at the given
    /// in-bounds position and leaves every other bit as it was.
    #[verifier::external_body]
    pub fn insert(&self, i: usize) -> (r: ConsumedSet)
        requires
            i < 6,
        ensures
            consumed_bits(r) == consumed_bits(*self).insert(i as int),
    {
        let mut bits = self.bits;
        bits.set(i, true);
        ConsumedSet { bits }
    }
}

} // verus!
