//! A run of plain text at a position of the display.

use vstd::prelude::*;

use crate::display::Placement;

verus! {

/// A placed run of text.
pub struct DisplaySegment {
    content: String,
    placement: Placement,
}

impl DisplaySegment {
    /// The text of the segment.
    pub closed spec fn spec_content(self) -> Seq<char> {
        self.content@
    }

    /// The position of the segment.
    pub closed spec fn spec_placement(self) -> Placement {
        self.placement
    }

    /// A segment with the given position and text.
    pub fn new(placement: Placement, content: String) -> (s: DisplaySegment)
        ensures
            s.spec_content() == content@,
            s.spec_placement() == placement,
    {
        DisplaySegment { placement, content }
    }

    /// The length of the text, in characters.
    pub fn len(&self) -> (n: usize)
        ensures
            n == self.spec_content().len(),
    {
        self.content.as_str().unicode_len()
    }

    /// Appends text to the segment.
    pub fn push(&mut self, s: &str)
        ensures
            final(self).spec_content() == old(self).spec_content() + s@,
            final(self).spec_placement() == old(self).spec_placement(),
    {
        self.content.append(s);
    }

    /// Removes and returns the last character, if any.
    pub fn pop(&mut self) -> (r: Option<char>)
        ensures
            old(self).spec_content().len() == 0 ==> r is None && final(self).spec_content()
                == old(self).spec_content(),
            old(self).spec_content().len() > 0 ==> r == Some(old(self).spec_content().last())
                && final(self).spec_content() == old(self).spec_content().drop_last(),
            final(self).spec_placement() == old(self).spec_placement(),
    {
        self.content.pop()
    }

    /// Whether the segment holds no text.
    pub fn is_empty(&self) -> (r: bool)
        ensures
            r == (self.spec_content().len() == 0),
    {
        self.content.as_str().is_empty()
    }

    /// The rendered text of the segment: its content.
    pub fn to_string(&self) -> (r: String)
        ensures
            r@ == self.spec_content(),
    {
        self.content.clone()
    }
}

} // verus!
