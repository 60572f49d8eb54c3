//! A small complement to the string specifications that vstd provides.

use vstd::prelude::*;

verus! {

/// Relies on `alloc::string::String::push`: appending one character to the
/// end of a string appends exactly that character to its character sequence.
pub assume_specification[ String::push ](s: &mut String, ch: char)
    ensures
        final(s)@ == old(s)@.push(ch),
;

/// Relies on `alloc::string::String::pop`: removing the last character of a
/// non-empty string returns it; an empty string is left alone.
pub assume_specification[ String::pop ](s: &mut String) -> (r: Option<char>)
    ensures
        old(s)@.len() == 0 ==> r is None && final(s)@ == old(s)@,
        old(s)@.len() > 0 ==> r == Some(old(s)@.last()) && final(s)@ == old(s)@.drop_last(),
;

} // verus!
