//! A small index set over one machine word: the initialization bitset a
//! construction session keeps, one bit per field, for up to 64 fields.

use vstd::prelude::*;

verus! {

/// A set of indices below 64, stored as one bit each.
#[derive(Clone, Copy, Debug)]
pub struct ISet {
    pub bits: u64,
}

impl ISet {
    /// Whether index `i` is in the set; indices outside the word are
    /// never in it.
    pub open spec fn spec_has(self, i: int) -> bool {
        0 <= i < 64 && (self.bits >> (i as u64)) & 1u64 == 1u64
    }

    /// The empty set.
    pub fn empty() -> (r: Self)
        ensures
            forall|i: int| !r.spec_has(i),
    {
        proof {
            assert(forall|i: u64| i < 64 ==> (0u64 >> i) & 1u64 == 0u64) by (bit_vector);
        }
        ISet { bits: 0 }
    }

    /// Whether index `i` is in the set.
    pub fn has(&self, i: usize) -> (r: bool)
        requires
            i < 64,
        ensures
            r == self.spec_has(i as int),
    {
        (self.bits >> (i as u64)) & 1u64 == 1u64
    }

    /// Adds index `i` to the set, leaving every other index as it was.
    pub fn mark(&mut self, i: usize)
        requires
            i < 64,
        ensures
            forall|j: int| final(self).spec_has(j) == (old(self).spec_has(j) || j == i as int),
    {
        proof {
            let b = self.bits;
            let iv = i as u64;
            assert(forall|j: u64|
                j < 64 && iv < 64 ==> ((b | (1u64 << iv)) >> j) & 1u64 == (if j == iv {
                    1u64
                } else {
                    (b >> j) & 1u64
                })) by (bit_vector);
        }
        self.bits = self.bits | (1u64 << (i as u64));
    }
}

} // verus!
