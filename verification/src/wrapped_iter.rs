//! The parser's token buffer, with an auxiliary leading plus sign.
//!
//! The first token the parser examines is always a plus sign, so the first
//! real fragment of the whole expression is classified as the start of a
//! term (its combinator comes out `Neither`), avoiding a special case in the
//! term-splitting logic.

use vstd::prelude::*;

use crate::erasable::Erasable;

verus! {

/// A token sequence prefixed with the auxiliary plus sign.
pub struct WrappedIter {
    tokens: Vec<Erasable>,
}

impl View for WrappedIter {
    type V = Seq<Erasable>;

    closed spec fn view(&self) -> Seq<Erasable> {
        self.tokens@
    }
}

impl WrappedIter {
    /// Copies `tokens`, placing the auxiliary plus sign in front.
    pub fn wrap(tokens: &Vec<Erasable>) -> (w: WrappedIter)
        ensures
            w@ == seq![Erasable::PlusSign] + tokens@,
    {
        let mut buffer: Vec<Erasable> = Vec::new();
        buffer.push(Erasable::PlusSign);
        let mut i: usize = 0;
        while i < tokens.len()
            invariant
                i <= tokens@.len(),
                buffer@ == seq![Erasable::PlusSign] + tokens@.subrange(0, i as int),
            decreases tokens@.len() - i,
        {
            buffer.push(tokens[i]);
            proof {
                assert(tokens@.subrange(0, i + 1) =~= tokens@.subrange(0, i as int).push(
                    tokens@[i as int],
                ));
                assert(buffer@ =~= seq![Erasable::PlusSign] + tokens@.subrange(0, i + 1));
            }
            i = i + 1;
        }
        proof {
            assert(tokens@.subrange(0, tokens@.len() as int) =~= tokens@);
        }
        WrappedIter { tokens: buffer }
    }

    /// The prefixed token sequence.
    pub fn tokens(&self) -> (t: &Vec<Erasable>)
        ensures
            t@ == self@,
    {
        &self.tokens
    }
}

} // verus!
