//! A sequence of sizes that grows by shifting left.
use vstd::prelude::*;

verus! {

/// Sizes that start at `num` and are shifted left by `mask` bits at each
/// step; the sequence ends when the shift reaches the width of `usize`.
pub struct BitShiftLeft {
    mask: u32,
    num: usize,
}

impl BitShiftLeft {
    pub closed spec fn spec_mask(&self) -> u32 {
        self.mask
    }

    pub closed spec fn spec_num(&self) -> usize {
        self.num
    }

    /// Sizes from `num`, shifted by `mask` bits, which is not zero.
    pub fn new(mask: u32, num: usize) -> (r: BitShiftLeft)
        requires
            mask != 0,
        ensures
            r.spec_mask() == mask,
            r.spec_num() == num,
    {
        BitShiftLeft { mask, num }
    }

    /// The next size: the current one, while shifting it left by the mask
    /// is a shift by less than the width of `usize`.
    pub fn next(&mut self) -> (r: Option<usize>)
        ensures
            old(self).spec_mask() < usize::BITS ==> r == Some(old(self).spec_num()) && final(self).spec_num()
                == (old(self).spec_num() << old(self).spec_mask()) && final(self).spec_mask() == old(
                self,
            ).spec_mask(),
            old(self).spec_mask() >= usize::BITS ==> r is None && *final(self) == *old(self),
    {
        let next = self.num;
        if self.mask < usize::BITS {
            self.num = self.num << self.mask;
            Some(next)
        } else {
            None
        }
    }
}

} // verus!
