//! Configuration parsed from the arguments of the discriminant-string
//! attribute.
//!
//! The attribute itself runs in a procedural-macro crate; the token-stream
//! walking stays there. What can be verified is the interpretation of one
//! literal argument — a decimal byte, a character literal or a byte
//! literal — and the configuration record the walker fills in.

use vstd::prelude::*;

use crate::parsers::{all_digits, digits_val};

verus! {

/// How a discriminant is rendered into a string: as the character it
/// encodes, or as its number.
#[derive(Clone, Copy, Debug, PartialEq, Eq, Structural)]
pub enum OutputType {
    Char,
    Num,
}

/// The configuration of the attribute: the output rendering, and the
/// discriminant values to reject with a compile error.
pub struct Config {
    output: OutputType,
    exceptions: Vec<u8>,
}

impl Config {
    /// The output rendering.
    pub closed spec fn spec_output(self) -> OutputType {
        self.output
    }

    /// The rejected discriminant values.
    pub closed spec fn spec_exceptions(self) -> Seq<u8> {
        self.exceptions@
    }

    /// Packs a configuration.
    pub fn new(output: OutputType, exceptions: Vec<u8>) -> (c: Config)
        ensures
            c.spec_output() == output,
            c.spec_exceptions() == exceptions@,
    {
        Config { output, exceptions }
    }

    /// The output rendering.
    pub fn output(&self) -> (r: &OutputType)
        ensures
            *r == self.spec_output(),
    {
        &self.output
    }

    /// The rejected discriminant values.
    pub fn exceptions(&self) -> (r: &Vec<u8>)
        ensures
            r@ == self.spec_exceptions(),
    {
        &self.exceptions
    }
}

/// The digit string of a decimal byte literal: an optional leading plus,
/// then at least one digit, with a value of at most 255.
pub open spec fn spec_u8_literal(s: Seq<char>) -> Option<nat> {
    let ds = if s.len() > 0 && s[0] == '+' {
        s.subrange(1, s.len() as int)
    } else {
        s
    };
    if ds.len() > 0 && all_digits(ds) && digits_val(ds) <= 255 {
        Some(digits_val(ds))
    } else {
        None
    }
}

/// The byte value of one literal argument: a decimal byte, a character
/// literal `'x'` (its scalar value taken modulo one byte), or a byte
/// literal `b'x'`;
/// anything else is not a valid argument.
pub open spec fn spec_parse_literal(s: Seq<char>) -> Option<nat> {
    match spec_u8_literal(s) {
        Some(v) => Some(v),
        None => {
            if s.len() == 3 && s[0] == '\'' && s[2] == '\'' {
                Some((((s[1] as u32) as nat) % 256) as nat)
            } else if s.len() == 4 && s[0] == 'b' && s[1] == '\'' && s[3] == '\'' {
                Some((((s[2] as u32) as nat) % 256) as nat)
            } else {
                None
            }
        },
    }
}

/// Reads one literal argument into a byte; `None` for anything that is not
/// a decimal byte, a character literal or a byte literal.
pub fn parse_literal(lit: &str) -> (r: Option<u8>)
    ensures
        match spec_parse_literal(lit@) {
            Some(v) => r matches Some(x) && x as nat == v,
            None => r is None,
        },
{
    let n = lit.unicode_len();
    let start: usize = if n > 0 && lit.get_char(0) == '+' {
        1
    } else {
        0
    };
    let ghost ds = if lit@.len() > 0 && lit@[0] == '+' {
        lit@.subrange(1, lit@.len() as int)
    } else {
        lit@
    };
    let mut all_digs = n > start;
    let mut value: u64 = 0;
    let mut i: usize = start;
    proof {
        assert(ds =~= lit@.subrange(start as int, lit@.len() as int));
        assert(ds.subrange(0, 0) =~= Seq::<char>::empty());
    }
    while i < n
        invariant
            start <= i <= n == lit@.len(),
            start == 0 || start == 1,
            ds == lit@.subrange(start as int, lit@.len() as int),
            all_digs ==> all_digits(ds.subrange(0, i - start)),
            all_digs ==> value <= 256,
            (all_digs && value <= 255) ==> value == digits_val(ds.subrange(0, i - start)),
            (all_digs && value == 256) ==> digits_val(ds.subrange(0, i - start)) > 255,
            (!all_digs && n > start) ==> !all_digits(ds),
        decreases n - i,
    {
        let c = lit.get_char(i);
        if all_digs {
            if c < '0' || c > '9' {
                all_digs = false;
                proof {
                    assert(ds[i - start] == c);
                }
            } else {
                let d: u64 = (c as u32 as u64) - 48;
                let ghost prefix = ds.subrange(0, i - start);
                let ghost next = ds.subrange(0, i + 1 - start);
                proof {
                    assert(next.subrange(0, i - start) =~= prefix);
                    assert(next[i - start] == c);
                    assert(digits_val(next) == digits_val(prefix) * 10 + crate::parsers::char_digit(
                        c,
                    ));
                }
                if value > 255 {
                    value = 256;
                } else {
                    let nv = value * 10 + d;
                    value = if nv > 255 {
                        proof {
                            assert(digits_val(next) > 255);
                        }
                        256
                    } else {
                        nv
                    };
                }
            }
        }
        i = i + 1;
    }
    proof {
        assert(ds.subrange(0, n - start) =~= ds);
    }
    if all_digs && n > start && value <= 255 {
        return Some(value as u8);
    }
    if n == 3 && lit.get_char(0) == '\'' && lit.get_char(2) == '\'' {
        let c = lit.get_char(1);
        let w = c as u32;
        proof {
            assert(((w as u8) as nat) == (w as nat) % 256) by (bit_vector);
        }
        return Some(#[verifier::truncate] (w as u8));
    }
    if n == 4 && lit.get_char(0) == 'b' && lit.get_char(1) == '\'' && lit.get_char(3) == '\'' {
        let c = lit.get_char(2);
        let w = c as u32;
        proof {
            assert(((w as u8) as nat) == (w as nat) % 256) by (bit_vector);
        }
        return Some(#[verifier::truncate] (w as u8));
    }
    None
}

} // verus!
