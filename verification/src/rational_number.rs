//! Exact rational numbers, reduced to lowest terms.
//!
//! These back the reserved exact-fraction output modes; the inexact
//! floating-point path does not use them.

use vstd::prelude::*;

use crate::helpers::{hcf, spec_gcd};
use crate::sign::Sign;

verus! {

/// The decimal digit character of a value below ten.
pub open spec fn spec_digit_char(d: nat) -> char {
    if d == 0 {
        '0'
    } else if d == 1 {
        '1'
    } else if d == 2 {
        '2'
    } else if d == 3 {
        '3'
    } else if d == 4 {
        '4'
    } else if d == 5 {
        '5'
    } else if d == 6 {
        '6'
    } else if d == 7 {
        '7'
    } else if d == 8 {
        '8'
    } else {
        '9'
    }
}

/// The decimal rendering of a number, most significant digit first.
pub open spec fn spec_decimal_digits(n: nat) -> Seq<char>
    decreases n,
{
    if n < 10 {
        seq![spec_digit_char(n)]
    } else {
        spec_decimal_digits(n / 10).push(spec_digit_char(n % 10))
    }
}

/// A divisor of a positive number is positive.
proof fn lemma_gcd_pos(a: nat, b: nat)
    requires
        b > 0,
    ensures
        spec_gcd(a, b) > 0,
    decreases b,
{
    reveal_with_fuel(spec_gcd, 2);
    if a % b == 0 {
    } else {
        lemma_gcd_pos(b, a % b);
    }
}

/// The divisor of a positive number is no larger than it.
proof fn lemma_gcd_le(a: nat, b: nat)
    requires
        b > 0,
    ensures
        spec_gcd(a, b) <= b,
    decreases b,
{
    reveal_with_fuel(spec_gcd, 2);
    if a % b == 0 {
    } else {
        lemma_gcd_le(b, a % b);
    }
}

/// One decimal digit.
fn digit_char(d: u64) -> (c: char)
    requires
        d < 10,
    ensures
        c == spec_digit_char(d as nat),
{
    match d {
        0 => '0',
        1 => '1',
        2 => '2',
        3 => '3',
        4 => '4',
        5 => '5',
        6 => '6',
        7 => '7',
        8 => '8',
        _ => '9',
    }
}

/// The decimal rendering of a number.
fn u64_to_decimal(n: u64) -> (r: String)
    ensures
        r@ == spec_decimal_digits(n as nat),
    decreases n,
{
    if n < 10 {
        let mut s = String::new();
        s.push(digit_char(n));
        proof {
            assert(s@ =~= seq![spec_digit_char(n as nat)]);
        }
        s
    } else {
        let mut s = u64_to_decimal(n / 10);
        s.push(digit_char(n % 10));
        s
    }
}

/// A rational number in lowest terms: an unsigned numerator and
/// denominator, and a sign.
#[derive(Debug, PartialEq, Eq, Structural)]
pub struct RationalNumber {
    numerator: u64,
    denominator: u64,
    sign: Sign,
}

/// What construction computes: the absolute values reduced by
/// their highest common factor, and a sign that is positive exactly when
/// numerator and denominator have the same sign.
pub open spec fn spec_reduced(n_abs: nat, d_abs: nat) -> (nat, nat) {
    let g = spec_gcd(n_abs, d_abs);
    (n_abs / g, d_abs / g)
}

/// What addition computes: cross-multiplied numerators are
/// added when the signs agree and subtracted (larger minus smaller) when
/// they differ; the result is reduced, and takes the sign of the larger
/// cross-multiplied operand (the right operand's sign on a tie).
pub open spec fn spec_rational_sum(
    an: nat,
    ad: nat,
    asg: Sign,
    bn: nat,
    bd: nat,
    bsg: Sign,
) -> (nat, nat, Sign) {
    let self_like = an * bd;
    let rhs_like = bn * ad;
    let numerator: nat = if asg == bsg {
        self_like + rhs_like
    } else if self_like > rhs_like {
        (self_like - rhs_like) as nat
    } else {
        (rhs_like - self_like) as nat
    };
    let denominator = ad * bd;
    let g = spec_gcd(numerator, denominator);
    (numerator / g, denominator / g, if self_like > rhs_like {
        asg
    } else {
        bsg
    })
}

impl RationalNumber {
    /// The unsigned numerator.
    pub closed spec fn spec_numerator(self) -> nat {
        self.numerator as nat
    }

    /// The unsigned denominator.
    pub closed spec fn spec_denominator(self) -> nat {
        self.denominator as nat
    }

    /// The sign.
    pub closed spec fn spec_sign(self) -> Sign {
        self.sign
    }

    /// The denominator is positive.
    pub open spec fn wf(self) -> bool {
        self.spec_denominator() > 0
    }

    /// Builds the rational `numerator / denominator` in lowest terms; the
    /// denominator must not be zero.
    pub fn new(numerator: i64, denominator: i64) -> (r: RationalNumber)
        requires
            denominator != 0,
            numerator != i64::MIN,
            denominator != i64::MIN,
        ensures
            r.wf(),
            ({
                let n_abs = (if numerator < 0 {
                    -(numerator as int)
                } else {
                    numerator as int
                }) as nat;
                let d_abs = (if denominator < 0 {
                    -(denominator as int)
                } else {
                    denominator as int
                }) as nat;
                &&& r.spec_numerator() == spec_reduced(n_abs, d_abs).0
                &&& r.spec_denominator() == spec_reduced(n_abs, d_abs).1
                &&& r.spec_sign() == (if (numerator < 0) == (denominator < 0) {
                    Sign::Positive
                } else {
                    Sign::Negative
                })
            }),
    {
        let is_numerator_negative = numerator < 0;
        let is_denominator_negative = denominator < 0;
        let n_abs: u64 = if numerator < 0 {
            (-numerator) as u64
        } else {
            numerator as u64
        };
        let d_abs: u64 = if denominator < 0 {
            (-denominator) as u64
        } else {
            denominator as u64
        };
        let g = hcf(n_abs, d_abs);
        proof {
            lemma_gcd_pos(n_abs as nat, d_abs as nat);
            lemma_gcd_le(n_abs as nat, d_abs as nat);
            assert((d_abs as nat) / (g as nat) >= 1) by (nonlinear_arith)
                requires
                    0 < g <= d_abs,
            ;
        }
        RationalNumber {
            numerator: n_abs / g,
            denominator: d_abs / g,
            sign: Sign::build(is_denominator_negative == is_numerator_negative),
        }
    }

    /// The rendering `[-]numerator/denominator`.
    pub fn to_string(&self) -> (r: String)
        ensures
            r@ == (if self.spec_sign() is Negative {
                seq!['-']
            } else {
                Seq::<char>::empty()
            }) + spec_decimal_digits(self.spec_numerator()) + seq!['/'] + spec_decimal_digits(
                self.spec_denominator(),
            ),
    {
        let mut r = String::new();
        if let Sign::Negative = self.sign {
            r.push('-');
        }
        let n = u64_to_decimal(self.numerator);
        r.append(n.as_str());
        r.push('/');
        let d = u64_to_decimal(self.denominator);
        r.append(d.as_str());
        proof {
            assert(r@ =~= (if self.spec_sign() is Negative {
                seq!['-']
            } else {
                Seq::<char>::empty()
            }) + spec_decimal_digits(self.spec_numerator()) + seq!['/'] + spec_decimal_digits(
                self.spec_denominator(),
            ));
        }
        r
    }

    /// The exact sum of two rationals, in lowest terms.
    pub fn plus(self, rhs: RationalNumber) -> (r: RationalNumber)
        requires
            self.wf(),
            rhs.wf(),
            self.spec_numerator() * rhs.spec_denominator() <= u64::MAX,
            rhs.spec_numerator() * self.spec_denominator() <= u64::MAX,
            self.spec_denominator() * rhs.spec_denominator() <= u64::MAX,
            self.spec_numerator() * rhs.spec_denominator() + rhs.spec_numerator()
                * self.spec_denominator() <= u64::MAX,
        ensures
            r.wf(),
            ({
                let s = spec_rational_sum(
                    self.spec_numerator(),
                    self.spec_denominator(),
                    self.spec_sign(),
                    rhs.spec_numerator(),
                    rhs.spec_denominator(),
                    rhs.spec_sign(),
                );
                r.spec_numerator() == s.0 && r.spec_denominator() == s.1 && r.spec_sign() == s.2
            }),
    {
        let self_like_numerator = self.numerator * rhs.denominator;
        let rhs_like_numerator = rhs.numerator * self.denominator;
        let numerator = if self.sign == rhs.sign {
            self_like_numerator + rhs_like_numerator
        } else if self_like_numerator > rhs_like_numerator {
            self_like_numerator - rhs_like_numerator
        } else {
            rhs_like_numerator - self_like_numerator
        };
        let denominator = self.denominator * rhs.denominator;
        proof {
            assert(denominator > 0) by (nonlinear_arith)
                requires
                    self.denominator > 0,
                    rhs.denominator > 0,
                    denominator == self.denominator * rhs.denominator,
            ;
        }
        let g = hcf(numerator, denominator);
        proof {
            lemma_gcd_pos(numerator as nat, denominator as nat);
            lemma_gcd_le(numerator as nat, denominator as nat);
            assert((denominator as nat) / (g as nat) >= 1) by (nonlinear_arith)
                requires
                    0 < g <= denominator,
            ;
        }
        RationalNumber {
            numerator: numerator / g,
            denominator: denominator / g,
            sign: if self_like_numerator > rhs_like_numerator {
                self.sign
            } else {
                rhs.sign
            },
        }
    }
}

} // verus!
