//! A die face: a value of pips in `[1, 6]`, also addressable by a zero-based
//! index in `[0, 5]`.

use vstd::prelude::*;

verus! {

/// One die face. The pips value is always in `[1, 6]`; construction from an
/// out-of-range value fails with `None` rather than clamping.
#[derive(Copy, Clone, Debug, PartialEq, Eq, Structural, PartialOrd, Ord, Hash)]
pub struct Die(u8);

impl View for Die {
    type V = int;

    closed spec fn view(&self) -> int {
        self.0 as int
    }
}

impl Die {
    /// Every die value carries a pips count in `[1, 6]`.
    #[verifier::type_invariant]
    pub open spec fn valid(self) -> bool {
        1 <= self@ <= 6
    }

    /// The zero-based index of this face: pips minus one.
    pub fn as_index(self) -> (r: usize)
        ensures
            r == self@ - 1,
            0 <= r < 6,
    {
        proof {
            use_type_invariant(self);
        }
        (self.0 - 1) as usize
    }

    /// The pips value of this face.
    pub fn pips(self) -> (r: u8)
        ensures
            r == self@,
            1 <= r <= 6,
    {
        proof {
            use_type_invariant(self);
        }
        self.0
    }

    /// Builds a die from a pips value; yields `Some` exactly for values in
    /// `[1, 6]`, and the die then reads back the given value.
    pub fn from_pips(pips: u8) -> (r: Option<Die>)
        ensures
            r is Some <==> 1 <= pips <= 6,
            r matches Some(d) ==> d@ == pips,
    {
        if 1 <= pips && pips <= 6 {
            Some(Die(pips))
        } else {
            None
        }
    }

    /// Builds a die from a zero-based face index; yields `Some` exactly for
    /// indices in `[0, 5]`, and the die then has `index + 1` pips.
    pub fn from_index(index: usize) -> (r: Option<Die>)
        ensures
            r is Some <==> index <= 5,
            r matches Some(d) ==> d@ == index + 1,
    {
        if index <= 5 {
            Some(Die((index + 1) as u8))
        } else {
            None
        }
    }
}

/// Two dice that read the same pips value are the same die.
pub proof fn lemma_die_eq(a: Die, b: Die)
    requires
        a@ == b@,
    ensures
        a == b,
{
    assert(a.0 == b.0);
}

} // verus!
