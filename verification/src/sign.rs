//! The sign of a term fragment: positive or negative.

use vstd::prelude::*;

verus! {

/// A sign, as carried by a term fragment or used as a direction of cursor
/// movement (`Positive` moves forward, `Negative` backward).
#[derive(Clone, Copy, Debug, PartialEq, Eq, Structural)]
pub enum Sign {
    Positive,
    Negative,
}

impl Sign {
    /// The opposite sign, as a mathematical value.
    pub open spec fn spec_inverse(self) -> Sign {
        match self {
            Sign::Positive => Sign::Negative,
            Sign::Negative => Sign::Positive,
        }
    }

    /// `Positive` for `true`, `Negative` for `false`.
    pub fn build(b: bool) -> (s: Sign)
        ensures
            s == (if b {
                Sign::Positive
            } else {
                Sign::Negative
            }),
    {
        if b {
            Sign::Positive
        } else {
            Sign::Negative
        }
    }

    /// The opposite sign.
    pub fn inverse(&self) -> (s: Sign)
        ensures
            s == self.spec_inverse(),
    {
        match self {
            Sign::Positive => Sign::Negative,
            Sign::Negative => Sign::Positive,
        }
    }
}

} // verus!
