//! Small arithmetic helpers for the exact-fraction path.

use vstd::prelude::*;

verus! {

/// The greatest common divisor, by Euclid's recurrence.
pub open spec fn spec_gcd(a: nat, b: nat) -> nat
    decreases b,
{
    if b == 0 {
        a
    } else {
        spec_gcd(b, a % b)
    }
}

/// Subtracting the smaller operand from the larger leaves the divisor
/// unchanged.
proof fn lemma_gcd_sub(a: nat, b: nat)
    requires
        a >= b,
        b > 0,
    ensures
        spec_gcd((a - b) as nat, b) == spec_gcd(a, b),
{
    assert((a as int - b) % (b as int) == (a as int) % (b as int)) by (nonlinear_arith)
        requires
            a >= b,
            b > 0,
    ;
    assert(spec_gcd((a - b) as nat, b) == spec_gcd(b, ((a - b) as nat) % b));
    assert(spec_gcd(a, b) == spec_gcd(b, a % b));
}

/// The divisor is symmetric in its operands.
proof fn lemma_gcd_comm(a: nat, b: nat)
    ensures
        spec_gcd(a, b) == spec_gcd(b, a),
{
    if a == 0 && b != 0 {
        assert(0nat % b == 0);
    } else if b == 0 && a != 0 {
        assert(0nat % a == 0);
    } else if a > b {
        assert(b % a == b) by (nonlinear_arith)
            requires
                0 < a,
                b < a,
        ;
    } else if a < b {
        assert(a % b == a) by (nonlinear_arith)
            requires
                0 < b,
                a < b,
        ;
    }
}

/// The highest common factor of two numbers, by repeated subtraction; when
/// one operand is zero the other is returned, so `hcf(0, 0) == 0`.
pub fn hcf(a: u64, b: u64) -> (r: u64)
    ensures
        r == spec_gcd(a as nat, b as nat),
{
    let ghost g = spec_gcd(a as nat, b as nat);
    let mut a = a;
    let mut b = b;
    while a != b && a > 0 && b > 0
        invariant
            spec_gcd(a as nat, b as nat) == g,
        decreases a + b,
    {
        if a > b {
            proof {
                lemma_gcd_sub(a as nat, b as nat);
            }
            a = a - b;
        } else {
            proof {
                lemma_gcd_comm(a as nat, b as nat);
                lemma_gcd_sub(b as nat, a as nat);
                lemma_gcd_comm(a as nat, (b - a) as nat);
            }
            b = b - a;
        }
    }
    if a == 0 {
        proof {
            assert(b != 0 ==> spec_gcd(0, b as nat) == spec_gcd(b as nat, 0)) by {
                if b != 0 {
                    lemma_gcd_comm(0, b as nat);
                }
            }
        }
        b
    } else {
        proof {
            if b == a {
                assert(spec_gcd(a as nat, a as nat) == spec_gcd(a as nat, 0));
            }
        }
        a
    }
}

} // verus!
