//! Inclusive integer ranges for the display layout engine.

use vstd::prelude::*;

verus! {

/// An inclusive range of lines.
#[derive(Clone, Copy, Debug, PartialEq, Eq, Structural, Hash)]
pub struct Range {
    // inclusive
    min: isize,
    // inclusive
    max: isize,
}

impl Range {
    /// The lower bound.
    pub closed spec fn spec_min(self) -> int {
        self.min as int
    }

    /// The upper bound.
    pub closed spec fn spec_max(self) -> int {
        self.max as int
    }

    /// The bounds are ordered.
    pub open spec fn wf(self) -> bool {
        self.spec_min() <= self.spec_max()
    }

    /// Whether a point lies in the range, as a mathematical value.
    pub open spec fn spec_contains(self, k: int) -> bool {
        self.spec_min() <= k <= self.spec_max()
    }

    /// Whether two ranges share a point.
    pub open spec fn spec_overlaps(self, r: Range) -> bool {
        (r.spec_min() >= self.spec_min() && r.spec_min() <= self.spec_max()) || (r.spec_max()
            >= self.spec_min() && r.spec_max() <= self.spec_max())
    }

    /// A range from `min` to `max`, both inclusive; the bounds must be
    /// ordered.
    pub fn new(min: isize, max: isize) -> (r: Range)
        requires
            min <= max,
        ensures
            r.spec_min() == min,
            r.spec_max() == max,
            r.wf(),
    {
        Range { min, max }
    }

    /// Whether this range shares a point with `r`. For well-formed ranges
    /// this is symmetric: it holds exactly when some point lies in both.
    pub fn overlaps(&self, r: &Range) -> (b: bool)
        ensures
            b == self.spec_overlaps(*r),
    {
        (r.min >= self.min && r.min <= self.max) || (r.max >= self.min && r.max <= self.max)
    }

    /// Whether `k` lies in the range.
    pub fn contains(&self, k: isize) -> (b: bool)
        ensures
            b == self.spec_contains(k as int),
    {
        k >= self.min && k <= self.max
    }

    /// The lower bound.
    pub fn get_min(&self) -> (v: isize)
        ensures
            v as int == self.spec_min(),
    {
        self.min
    }

    /// The upper bound.
    pub fn get_max(&self) -> (v: isize)
        ensures
            v as int == self.spec_max(),
    {
        self.max
    }

    /// Lowers (or raises) the lower bound; it may not pass the upper bound.
    pub fn set_min(&mut self, val: isize)
        requires
            val <= old(self).spec_max(),
        ensures
            final(self).spec_min() == val,
            final(self).spec_max() == old(self).spec_max(),
            final(self).wf(),
    {
        self.min = val;
    }

    /// Raises (or lowers) the upper bound; it may not pass the lower bound.
    pub fn set_max(&mut self, val: isize)
        requires
            val >= old(self).spec_min(),
        ensures
            final(self).spec_max() == val,
            final(self).spec_min() == old(self).spec_min(),
            final(self).wf(),
    {
        self.max = val;
    }

    /// The distance between the bounds.
    pub fn magnitude(&self) -> (v: isize)
        requires
            self.wf(),
            self.spec_max() - self.spec_min() <= isize::MAX,
        ensures
            v as int == self.spec_max() - self.spec_min(),
    {
        self.max - self.min
    }
}

} // verus!
