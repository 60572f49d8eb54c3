//! A block of display units stacked on their own lines.
//!
//! A block tracks, per relative line range, one unit (a text segment or a
//! nested block), together with the overall range of relative lines it
//! spans. As with the rest of the display layout, the structural
//! bookkeeping is verified exactly; the rendered text of a whole block is
//! deliberately left loosely specified (see
//! [`crate::display::DisplayUnit::to_string`]).

use vstd::prelude::*;

use crate::display::{DisplayUnit, Placement};
use crate::errors::MutationOperationError;
use crate::range::Range;
use crate::range_divider::RangeDivider;

verus! {

/// How many lines above its own line a unit reaches.
pub open spec fn spec_unit_min_depth(u: DisplayUnit) -> int {
    match u {
        DisplayUnit::DisplaySegment(_) => 0,
        DisplayUnit::DisplayBlock(b) => -b.spec_line_range().spec_min(),
    }
}

/// How many lines below its own line a unit reaches.
pub open spec fn spec_unit_max_depth(u: DisplayUnit) -> int {
    match u {
        DisplayUnit::DisplaySegment(_) => 0,
        DisplayUnit::DisplayBlock(b) => b.spec_line_range().spec_max(),
    }
}

/// The nested block of a unit, if any, is well formed.
pub open spec fn spec_unit_block_wf(u: DisplayUnit) -> bool {
    match u {
        DisplayUnit::DisplaySegment(_) => true,
        DisplayUnit::DisplayBlock(b) => b.wf(),
    }
}

/// A block of units, each on its own relative line range.
pub struct DisplayBlock {
    units: RangeDivider<DisplayUnit>,
    placement: Placement,
    relative_line_placement: Range,
}

impl DisplayBlock {
    /// The held units with their relative line ranges, in insertion order.
    pub closed spec fn spec_units(self) -> Seq<(Range, DisplayUnit)> {
        self.units.spec_entries()
    }

    /// The range of relative lines the block spans.
    pub closed spec fn spec_line_range(self) -> Range {
        self.relative_line_placement
    }

    /// The block's position relative to its parent.
    pub closed spec fn spec_placement(self) -> Placement {
        self.placement
    }

    /// The divider is well formed and the spanned line range brackets the
    /// block's own line within machine bounds.
    pub closed spec fn wf(self) -> bool {
        &&& self.units.wf()
        &&& self.relative_line_placement.wf()
        &&& self.relative_line_placement.spec_min() <= 0
        &&& self.relative_line_placement.spec_max() >= 0
        &&& self.relative_line_placement.spec_min() > isize::MIN
    }

    /// An empty block at the given position, spanning only its own line.
    pub fn new(placement: Placement) -> (b: DisplayBlock)
        ensures
            b.wf(),
            b.spec_units() == Seq::<(Range, DisplayUnit)>::empty(),
            b.spec_line_range().spec_min() == 0,
            b.spec_line_range().spec_max() == 0,
            b.spec_placement() == placement,
    {
        DisplayBlock {
            units: RangeDivider::new(),
            placement,
            relative_line_placement: Range::new(0, 0),
        }
    }

    /// How many lines above its own line the block reaches.
    pub fn min_line_placement(&self) -> (v: isize)
        requires
            self.wf(),
        ensures
            v as int == -self.spec_line_range().spec_min(),
    {
        let min = self.relative_line_placement.get_min();
        -min
    }

    /// How many lines below its own line the block reaches.
    pub fn max_line_placement(&self) -> (v: isize)
        requires
            self.wf(),
        ensures
            v as int == self.spec_line_range().spec_max(),
    {
        self.relative_line_placement.get_max()
    }

    /// Places a unit so that its own line is `line_placement`, reserving
    /// the relative lines it reaches; refused when that range overlaps one
    /// already reserved. On success the spanned line range widens to cover
    /// the newcomer.
    pub fn add_unit_at(&mut self, line_placement: isize, unit: DisplayUnit) -> (res: Result<
        (),
        MutationOperationError,
    >)
        requires
            old(self).wf(),
            spec_unit_block_wf(unit),
            line_placement - spec_unit_min_depth(unit) > isize::MIN,
            line_placement + spec_unit_max_depth(unit) <= isize::MAX,
        ensures
            final(self).wf(),
            ({
                let lo = line_placement - spec_unit_min_depth(unit);
                let hi = line_placement + spec_unit_max_depth(unit);
                if exists|i: int|
                    0 <= i < old(self).spec_units().len() && ((#[trigger] old(self).spec_units()[i].0).spec_min() <= lo <= old(self).spec_units()[i].0.spec_max() || old(self).spec_units()[i].0.spec_min() <= hi <= old(self).spec_units()[i].0.spec_max())
                 {
                    res matches Err(e) && e == MutationOperationError::AdditionError && final(self).spec_units() == old(self).spec_units() && final(self).spec_line_range()
                        == old(self).spec_line_range()
                } else {
                    &&& res matches Ok(u)
                    &&& final(self).spec_units().len() == old(self).spec_units().len() + 1
                    &&& final(self).spec_units().last().0.spec_min() == lo
                    &&& final(self).spec_units().last().0.spec_max() == hi
                    &&& final(self).spec_units().last().1 == unit
                    &&& forall|i: int|
                        0 <= i < old(self).spec_units().len() ==> #[trigger] final(self).spec_units()[i] == old(self).spec_units()[i]
                    &&& final(self).spec_line_range().spec_min() == (if lo < old(self).spec_line_range().spec_min() {
                        lo
                    } else {
                        old(self).spec_line_range().spec_min()
                    })
                    &&& final(self).spec_line_range().spec_max() == (if hi > old(self).spec_line_range().spec_max() {
                        hi
                    } else {
                        old(self).spec_line_range().spec_max()
                    })
                }
            }),
    {
        let (unit_min, unit_max) = match &unit {
            DisplayUnit::DisplayBlock(b) => (b.min_line_placement(), b.max_line_placement()),
            DisplayUnit::DisplaySegment(_) => (0, 0),
        };
        let r = Range::new(line_placement - unit_min, line_placement + unit_max);
        let r_min = r.get_min();
        let r_max = r.get_max();
        let ghost entries0 = self.units.spec_entries();
        match self.units.insert(r, unit) {
            Err(e) => {
                proof {
                    assert(exists|i: int|
                        0 <= i < entries0.len() && (#[trigger] entries0[i].0).spec_overlaps(r));
                    let i = choose|i: int|
                        0 <= i < entries0.len() && (#[trigger] entries0[i].0).spec_overlaps(r);
                    assert(old(self).spec_units()[i].0.spec_min() <= r.spec_min() <= old(self).spec_units()[i].0.spec_max() || old(self).spec_units()[i].0.spec_min()
                        <= r.spec_max() <= old(self).spec_units()[i].0.spec_max());
                }
                Err(e)
            },
            Ok(_) => {
                proof {
                    assert forall|i: int|
                        0 <= i < old(self).spec_units().len() implies !((#[trigger] old(self).spec_units()[i].0).spec_min() <= line_placement - spec_unit_min_depth(unit)
                        <= old(self).spec_units()[i].0.spec_max() || old(self).spec_units()[i].0.spec_min() <= line_placement + spec_unit_max_depth(unit) <= old(self).spec_units()[i].0.spec_max()) by {
                        assert(!entries0[i].0.spec_overlaps(r));
                    }
                }
                if r_max > self.relative_line_placement.get_max() {
                    self.relative_line_placement.set_max(r_max);
                }
                if r_min < self.relative_line_placement.get_min() {
                    self.relative_line_placement.set_min(r_min);
                }
                Ok(())
            },
        }
    }

    /// The unit whose reserved line range contains `line_placement`, if
    /// any.
    pub fn get_unit_at(&self, line_placement: isize) -> (res: Option<&DisplayUnit>)
        requires
            self.wf(),
        ensures
            match res {
                Some(u) => exists|i: int|
                    0 <= i < self.spec_units().len() && (#[trigger] self.spec_units()[i].0).spec_contains(line_placement as int) && *u == self.spec_units()[i].1,
                None => forall|i: int|
                    0 <= i < self.spec_units().len() ==> !(#[trigger] self.spec_units()[i].0).spec_contains(line_placement as int),
            },
    {
        match self.units.get(line_placement) {
            Some(entry) => {
                let u = *entry.content();
                proof {
                    let i = choose|i: int|
                        0 <= i < self.units.spec_entries().len() && (#[trigger] self.units.spec_entries()[i].0).spec_contains(
                            line_placement as int,
                        ) && entry.spec_entry_min() == self.units.spec_entries()[i].0.spec_min()
                            && entry.spec_entry_max() == self.units.spec_entries()[i].0.spec_max()
                            && *entry.spec_content() == self.units.spec_entries()[i].1;
                    assert(self.spec_units()[i].0.spec_contains(line_placement as int) && *u
                        == self.spec_units()[i].1);
                }
                Some(u)
            },
            None => {
                proof {
                    assert forall|i: int|
                        0 <= i < self.spec_units().len() implies !(#[trigger] self.spec_units()[i].0).spec_contains(line_placement as int) by {
                        assert(!self.units.spec_entries()[i].0.spec_contains(
                            line_placement as int,
                        ));
                    }
                }
                None
            },
        }
    }

    /// The rendered text of the block: the renderings of its units, in
    /// ascending order of their reserved line ranges. The exact text of
    /// nested blocks is a formatting concern and is not otherwise pinned
    /// down by this contract.
    pub fn to_string(&self) -> (r: String)
        decreases self,
    {
        let entries = self.units.sorted();
        let mut result = String::new();
        let mut k: usize = 0;
        while k < entries.len()
            invariant
                0 <= k <= entries@.len(),
                crate::range_divider::arrangement_of(self.units.spec_entries(), entries@),
            decreases entries@.len() - k,
        {
            proof {
                let pair = (entries@[k as int].0, *entries@[k as int].1);
                assert(self.units.spec_entries().contains(pair));
                let j = choose|j: int|
                    0 <= j < self.units.spec_entries().len() && self.units.spec_entries()[j]
                        == pair;
                self.units.lemma_entry_decreases(j);
                assert(decreases_to!(self => self.units));
            }
            let unit: &DisplayUnit = entries[k].1;
            let piece = unit.to_string();
            result.append(piece.as_str());
            k = k + 1;
        }
        result
    }
}

} // verus!
