//! Shared pieces of the nested display layout.
//!
//! The layout engine itself is a formatting concern at the edge of the
//! calculator; its data structures are verified for their structural
//! bookkeeping, while the rendered text of nested blocks is deliberately
//! specified only where it is simple (a lone segment renders its content).

use vstd::prelude::*;

use crate::display_block::DisplayBlock;
use crate::display_segment::DisplaySegment;

verus! {

/// One unit of the nested display: a run of plain text, or a block of
/// further units stacked on their own lines.
pub enum DisplayUnit {
    DisplaySegment(DisplaySegment),
    DisplayBlock(DisplayBlock),
}

/// A position relative to the parent block.
#[derive(Clone, Copy, Debug, PartialEq, Eq, Structural)]
pub struct Placement {
    pub line_placement: isize,
    pub char_placement: usize,
}

/// A terminal cursor position.
#[derive(Clone, Copy, Debug, PartialEq, Eq, Structural)]
pub struct OnScreenCursorCoordinates {
    pub from_left: u16,
    pub from_top: u16,
}

impl DisplayUnit {
    /// The rendered text of this unit: a segment renders its content, and
    /// a block renders its units in ascending line order (the block's
    /// rendering is not otherwise pinned down here; the layout engine is a
    /// formatting concern outside the calculator's verified statement).
    pub fn to_string(&self) -> (r: String)
        ensures
            self matches DisplayUnit::DisplaySegment(seg) ==> r@ == seg.spec_content(),
        decreases self,
    {
        match self {
            DisplayUnit::DisplaySegment(seg) => seg.to_string(),
            DisplayUnit::DisplayBlock(b) => b.to_string(),
        }
    }
}

} // verus!
