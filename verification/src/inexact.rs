//! The evaluator: expression tree to a unit-aware numeric result.
//!
//! An [`Inexact`] pairs a numeric computation with an optional angle unit.
//! The evaluator itself decides everything that does not require carrying
//! out floating-point arithmetic: which primitive operations are applied, in
//! which order, how angle units propagate (degrees are converted to radians
//! whenever two unit-bearing quantities interact, trigonometric functions
//! normalize their argument to radians, inverse trigonometric results are
//! always tagged radians), and which structurally empty inputs are errors.
//! The resulting [`Value`] is a tree of primitive numeric operations; a thin
//! unverified interpreter reduces it with floating-point arithmetic, so that
//! division by zero and domain violations flow through as IEEE `NaN` or
//! infinities rather than as typed errors.

use vstd::prelude::*;

use crate::errors::CalculationError;
use crate::expression::{
    expression_model, AngleUnit, Expression, Function, MultipliedOrDivided, NamedConstant,
    SpecConstant, SpecExpression, SpecFragment, SpecFunction, SpecMagnitude, SpecTerm, Term,
    TermFragment, TermFragmentMagnitude, UnnamedConstant,
};
use crate::sign::Sign;

verus! {

/// A tree of primitive numeric operations: what the evaluator asks
/// floating-point arithmetic to compute. Every leaf is a literal or a named
/// constant; every node is one primitive operation, in the order the
/// evaluator commits to.
#[derive(Debug)]
pub enum Value {
    /// An integer literal.
    Integer(u64),
    /// A decimal literal, kept as its digit strings.
    Decimal { before_decimal_point: String, after_decimal_point: String },
    /// The circle constant.
    Pi,
    /// Euler's number.
    E,
    /// Negation, from a negative fragment sign.
    Negated(Box<Value>),
    /// `1 / x`, from a divided fragment.
    Reciprocal(Box<Value>),
    /// Addition of two adjacent terms.
    Sum(Box<Value>, Box<Value>),
    /// Multiplication of two adjacent fragments, or of a named constant by
    /// its coefficient.
    Product(Box<Value>, Box<Value>),
    /// Division of a fraction's numerator by its denominator.
    Quotient(Box<Value>, Box<Value>),
    /// `base` raised to `exponent`.
    Power(Box<Value>, Box<Value>),
    Sine(Box<Value>),
    Cosine(Box<Value>),
    Tangent(Box<Value>),
    Arcsine(Box<Value>),
    Arccosine(Box<Value>),
    Arctangent(Box<Value>),
    AbsoluteValue(Box<Value>),
    /// Degrees-to-radians conversion.
    ToRadians(Box<Value>),
    /// Radians-to-degrees conversion.
    ToDegrees(Box<Value>),
}

/// Model of a [`Value`], with digit strings as character sequences.
#[verifier::ext_equal]
pub enum SpecValue {
    Integer(u64),
    Decimal { before_decimal_point: Seq<char>, after_decimal_point: Seq<char> },
    Pi,
    E,
    Negated(Box<SpecValue>),
    Reciprocal(Box<SpecValue>),
    Sum(Box<SpecValue>, Box<SpecValue>),
    Product(Box<SpecValue>, Box<SpecValue>),
    Quotient(Box<SpecValue>, Box<SpecValue>),
    Power(Box<SpecValue>, Box<SpecValue>),
    Sine(Box<SpecValue>),
    Cosine(Box<SpecValue>),
    Tangent(Box<SpecValue>),
    Arcsine(Box<SpecValue>),
    Arccosine(Box<SpecValue>),
    Arctangent(Box<SpecValue>),
    AbsoluteValue(Box<SpecValue>),
    ToRadians(Box<SpecValue>),
    ToDegrees(Box<SpecValue>),
}

impl Value {
    /// The mathematical model of this computation tree.
    pub open spec fn model(self) -> SpecValue
        decreases self,
    {
        match self {
            Value::Integer(n) => SpecValue::Integer(n),
            Value::Decimal { before_decimal_point, after_decimal_point } => SpecValue::Decimal {
                before_decimal_point: before_decimal_point@,
                after_decimal_point: after_decimal_point@,
            },
            Value::Pi => SpecValue::Pi,
            Value::E => SpecValue::E,
            Value::Negated(v) => SpecValue::Negated(Box::new((*v).model())),
            Value::Reciprocal(v) => SpecValue::Reciprocal(Box::new((*v).model())),
            Value::Sum(a, b) => SpecValue::Sum(Box::new((*a).model()), Box::new((*b).model())),
            Value::Product(a, b) => SpecValue::Product(
                Box::new((*a).model()),
                Box::new((*b).model()),
            ),
            Value::Quotient(a, b) => SpecValue::Quotient(
                Box::new((*a).model()),
                Box::new((*b).model()),
            ),
            Value::Power(a, b) => SpecValue::Power(Box::new((*a).model()), Box::new((*b).model())),
            Value::Sine(v) => SpecValue::Sine(Box::new((*v).model())),
            Value::Cosine(v) => SpecValue::Cosine(Box::new((*v).model())),
            Value::Tangent(v) => SpecValue::Tangent(Box::new((*v).model())),
            Value::Arcsine(v) => SpecValue::Arcsine(Box::new((*v).model())),
            Value::Arccosine(v) => SpecValue::Arccosine(Box::new((*v).model())),
            Value::Arctangent(v) => SpecValue::Arctangent(Box::new((*v).model())),
            Value::AbsoluteValue(v) => SpecValue::AbsoluteValue(Box::new((*v).model())),
            Value::ToRadians(v) => SpecValue::ToRadians(Box::new((*v).model())),
            Value::ToDegrees(v) => SpecValue::ToDegrees(Box::new((*v).model())),
        }
    }
}

/// The evaluator's result: a numeric computation plus an optional angle
/// unit.
#[derive(Debug)]
pub struct Inexact {
    pub value: Value,
    pub unit: Option<AngleUnit>,
}

/// Model of an [`Inexact`].
#[verifier::ext_equal]
pub struct SpecInexact {
    pub value: SpecValue,
    pub unit: Option<AngleUnit>,
}

impl Inexact {
    /// The mathematical model of this result.
    pub open spec fn model(self) -> SpecInexact {
        SpecInexact { value: self.value.model(), unit: self.unit }
    }

    /// A degree-tagged result re-expressed in radians; anything else is
    /// returned unchanged.
    pub fn into_radians(self) -> (r: Inexact)
        ensures
            r.model() == spec_into_radians(self.model()),
    {
        match self.unit {
            Some(AngleUnit::Degrees) => Inexact {
                unit: Some(AngleUnit::Radians),
                value: Value::ToRadians(Box::new(self.value)),
            },
            _ => self,
        }
    }

    /// A radian-tagged result re-expressed in degrees; anything else is
    /// returned unchanged.
    pub fn into_degrees(self) -> (r: Inexact)
        ensures
            r.model() == spec_into_degrees(self.model()),
    {
        match self.unit {
            Some(AngleUnit::Radians) => Inexact {
                unit: Some(AngleUnit::Degrees),
                value: Value::ToDegrees(Box::new(self.value)),
            },
            _ => self,
        }
    }
}

/// The result of one evaluation step.
pub type CalculationResult = Result<Inexact, CalculationError>;

/// An evaluation outcome agrees with its model.
pub open spec fn calculation_result_matches(
    r: CalculationResult,
    s: Result<SpecInexact, Seq<char>>,
) -> bool {
    match (r, s) {
        (Ok(v), Ok(sv)) => v.model() == sv,
        (Err(e), Err(m)) => e@ == m,
        _ => false,
    }
}

/// Mirror of [`Inexact::into_radians`].
pub open spec fn spec_into_radians(v: SpecInexact) -> SpecInexact {
    if v.unit == Some(AngleUnit::Degrees) {
        SpecInexact {
            unit: Some(AngleUnit::Radians),
            value: SpecValue::ToRadians(Box::new(v.value)),
        }
    } else {
        v
    }
}

/// Mirror of [`Inexact::into_degrees`].
pub open spec fn spec_into_degrees(v: SpecInexact) -> SpecInexact {
    if v.unit == Some(AngleUnit::Radians) {
        SpecInexact {
            unit: Some(AngleUnit::Degrees),
            value: SpecValue::ToDegrees(Box::new(v.value)),
        }
    } else {
        v
    }
}

/// The unit-combination rule: normalize both operands to radians, add the
/// values, and take the first operand's unit if it has one, else the
/// second's.
pub open spec fn spec_add(a: SpecInexact, b: SpecInexact) -> SpecInexact {
    let a2 = spec_into_radians(a);
    let b2 = spec_into_radians(b);
    SpecInexact {
        value: SpecValue::Sum(Box::new(a2.value), Box::new(b2.value)),
        unit: if a2.unit is Some {
            a2.unit
        } else {
            b2.unit
        },
    }
}

/// The unit-combination rule for multiplication, as for [`spec_add`].
pub open spec fn spec_mul(a: SpecInexact, b: SpecInexact) -> SpecInexact {
    let a2 = spec_into_radians(a);
    let b2 = spec_into_radians(b);
    SpecInexact {
        value: SpecValue::Product(Box::new(a2.value), Box::new(b2.value)),
        unit: if a2.unit is Some {
            a2.unit
        } else {
            b2.unit
        },
    }
}

/// Mirror of the whole-expression evaluation: a left fold of the terms
/// under the addition rule; an empty expression is an error.
pub open spec fn spec_eval_expression(e: SpecExpression) -> Result<SpecInexact, Seq<char>>
    decreases e, 1nat, 0nat,
{
    if e.len() == 0 {
        Err("empty expression"@)
    } else {
        match spec_eval_term(e[0]) {
            Ok(first) => spec_eval_terms(e, 1, first),
            Err(m) => Err(m),
        }
    }
}

/// Folds the terms of an expression from `i` on into `acc`.
pub open spec fn spec_eval_terms(e: SpecExpression, i: int, acc: SpecInexact) -> Result<
    SpecInexact,
    Seq<char>,
>
    decreases e, 0nat, e.len() - i,
{
    if i < 0 || i >= e.len() {
        Ok(acc)
    } else {
        match spec_eval_term(e[i]) {
            Ok(v) => spec_eval_terms(e, i + 1, spec_add(acc, v)),
            Err(m) => Err(m),
        }
    }
}

/// Mirror of term evaluation: a left fold of the fragments under the
/// multiplication rule; an empty term is an error.
pub open spec fn spec_eval_term(t: SpecTerm) -> Result<SpecInexact, Seq<char>>
    decreases t, 1nat, 0nat,
{
    if t.fragments.len() == 0 {
        Err("unexpected empty term"@)
    } else {
        match spec_eval_fragment(t.fragments[0]) {
            Ok(first) => spec_eval_fragments(t.fragments, 1, first),
            Err(m) => Err(m),
        }
    }
}

/// Folds the fragments of a term from `i` on into `acc`.
pub open spec fn spec_eval_fragments(fs: Seq<SpecFragment>, i: int, acc: SpecInexact) -> Result<
    SpecInexact,
    Seq<char>,
>
    decreases fs, 0nat, fs.len() - i,
{
    if i < 0 || i >= fs.len() {
        Ok(acc)
    } else {
        match spec_eval_fragment(fs[i]) {
            Ok(v) => spec_eval_fragments(fs, i + 1, spec_mul(acc, v)),
            Err(m) => Err(m),
        }
    }
}

/// Mirror of fragment evaluation: evaluate the magnitude, negate for a
/// negative sign, adopt the fragment's angle-unit suffix if the magnitude
/// carried no unit (magnitude units take precedence), and take the
/// reciprocal for a divided fragment (the unit is not inverted).
pub open spec fn spec_eval_fragment(f: SpecFragment) -> Result<SpecInexact, Seq<char>>
    decreases f, 1nat, 0nat,
{
    match spec_eval_magnitude(f.fragment_magnitude) {
        Ok(magnitude) => {
            let signed_value = if f.sign is Negative {
                SpecValue::Negated(Box::new(magnitude.value))
            } else {
                magnitude.value
            };
            let unit = if magnitude.unit is Some {
                magnitude.unit
            } else {
                f.angle_unit
            };
            let value = if f.multiplied_or_divided is Divided {
                SpecValue::Reciprocal(Box::new(signed_value))
            } else {
                signed_value
            };
            Ok(SpecInexact { value, unit })
        },
        Err(m) => Err(m),
    }
}

/// Mirror of magnitude evaluation, one case per magnitude kind. A decimal
/// constant commits its digit strings only when their concatenation around
/// the point is a valid float literal; anything else is the evaluator's
/// literal-conversion error, as when the concatenation is handed to float
/// parsing.
pub open spec fn spec_eval_magnitude(m: SpecMagnitude) -> Result<SpecInexact, Seq<char>>
    decreases m, 1nat, 0nat,
{
    match m {
        SpecMagnitude::Bracket(e) => spec_eval_expression(e),
        SpecMagnitude::Function(f) => spec_eval_function(f),
        SpecMagnitude::NamedConstant { coefficient, constant } => {
            match spec_eval_expression(coefficient) {
                Ok(c) => Ok(
                    SpecInexact {
                        value: SpecValue::Product(
                            Box::new(c.value),
                            Box::new(
                                match constant {
                                    NamedConstant::Pi => SpecValue::Pi,
                                    NamedConstant::E => SpecValue::E,
                                },
                            ),
                        ),
                        unit: c.unit,
                    },
                ),
                Err(m2) => Err(m2),
            }
        },
        SpecMagnitude::NonNamedConstant(c) => {
            match c {
                SpecConstant::Integer(n) => Ok(
                    SpecInexact { value: SpecValue::Integer(n), unit: None },
                ),
                SpecConstant::Decimal { before_decimal_point, after_decimal_point } => {
                    if is_float_literal(
                        before_decimal_point + seq!['.'] + after_decimal_point,
                    ) {
                        Ok(
                            SpecInexact {
                                value: SpecValue::Decimal {
                                    before_decimal_point,
                                    after_decimal_point,
                                },
                                unit: None,
                            },
                        )
                    } else {
                        Err("invalid float literal"@)
                    }
                },
                SpecConstant::Fraction { numerator, denominator } => {
                    match spec_eval_expression_to_radians(numerator) {
                        Ok(n) => match spec_eval_expression_to_radians(denominator) {
                            Ok(d) => Ok(
                                SpecInexact {
                                    value: SpecValue::Quotient(
                                        Box::new(n.value),
                                        Box::new(d.value),
                                    ),
                                    unit: n.unit,
                                },
                            ),
                            Err(m2) => Err(m2),
                        },
                        Err(m2) => Err(m2),
                    }
                },
                SpecConstant::Power { base, exponent } => {
                    match spec_eval_expression(base) {
                        Ok(b) => match spec_eval_expression(exponent) {
                            Ok(ex) => Ok(
                                SpecInexact {
                                    value: SpecValue::Power(
                                        Box::new(b.value),
                                        Box::new(ex.value),
                                    ),
                                    unit: b.unit,
                                },
                            ),
                            Err(m2) => Err(m2),
                        },
                        Err(m2) => Err(m2),
                    }
                },
            }
        },
    }
}

/// Mirror of function evaluation. Direct trigonometric functions normalize
/// their argument to radians and drop the unit; inverse trigonometric
/// functions are always tagged radians; the absolute value preserves the
/// unit; the nth root takes the radicand's unit.
pub open spec fn spec_eval_function(f: SpecFunction) -> Result<SpecInexact, Seq<char>>
    decreases f, 1nat, 0nat,
{
    match f {
        SpecFunction::Absolute(e) => match spec_eval_expression(e) {
            Ok(v) => Ok(
                SpecInexact { value: SpecValue::AbsoluteValue(Box::new(v.value)), unit: v.unit },
            ),
            Err(m) => Err(m),
        },
        SpecFunction::NthRoot(degree, radicand) => match spec_eval_expression(degree) {
            Ok(d) => match spec_eval_expression(radicand) {
                Ok(r) => Ok(
                    SpecInexact {
                        value: SpecValue::Power(
                            Box::new(r.value),
                            Box::new(SpecValue::Reciprocal(Box::new(d.value))),
                        ),
                        unit: r.unit,
                    },
                ),
                Err(m) => Err(m),
            },
            Err(m) => Err(m),
        },
        SpecFunction::Sin(e) => match spec_eval_expression_to_radians(e) {
            Ok(v) => Ok(
                SpecInexact { value: SpecValue::Sine(Box::new(v.value)), unit: None },
            ),
            Err(m) => Err(m),
        },
        SpecFunction::Cos(e) => match spec_eval_expression_to_radians(e) {
            Ok(v) => Ok(
                SpecInexact { value: SpecValue::Cosine(Box::new(v.value)), unit: None },
            ),
            Err(m) => Err(m),
        },
        SpecFunction::Tan(e) => match spec_eval_expression_to_radians(e) {
            Ok(v) => Ok(
                SpecInexact { value: SpecValue::Tangent(Box::new(v.value)), unit: None },
            ),
            Err(m) => Err(m),
        },
        SpecFunction::Arcsin(e) => match spec_eval_expression(e) {
            Ok(v) => Ok(
                SpecInexact {
                    value: SpecValue::Arcsine(Box::new(v.value)),
                    unit: Some(AngleUnit::Radians),
                },
            ),
            Err(m) => Err(m),
        },
        SpecFunction::Arccos(e) => match spec_eval_expression(e) {
            Ok(v) => Ok(
                SpecInexact {
                    value: SpecValue::Arccosine(Box::new(v.value)),
                    unit: Some(AngleUnit::Radians),
                },
            ),
            Err(m) => Err(m),
        },
        SpecFunction::Arctan(e) => match spec_eval_expression(e) {
            Ok(v) => Ok(
                SpecInexact {
                    value: SpecValue::Arctangent(Box::new(v.value)),
                    unit: Some(AngleUnit::Radians),
                },
            ),
            Err(m) => Err(m),
        },
    }
}

/// Mirror of the fraction-side rule: evaluate, then convert the value to
/// radians when it is degree-tagged; the unit tag itself is left unchanged.
pub open spec fn spec_eval_expression_to_radians(e: SpecExpression) -> Result<
    SpecInexact,
    Seq<char>,
>
    decreases e, 2nat, 0nat,
{
    match spec_eval_expression(e) {
        Ok(v) => {
            if v.unit == Some(AngleUnit::Degrees) {
                Ok(SpecInexact { value: SpecValue::ToRadians(Box::new(v.value)), unit: v.unit })
            } else {
                Ok(v)
            }
        },
        Err(m) => Err(m),
    }
}


/// One decimal digit.
pub open spec fn spec_is_ascii_digit(c: char) -> bool {
    '0' <= c <= '9'
}

/// A leading sign of a float literal.
pub open spec fn spec_is_sign_char(c: char) -> bool {
    c == '+' || c == '-'
}

/// The first position at or after `i` that does not hold a digit.
pub open spec fn spec_digits_end(s: Seq<char>, i: int) -> int
    decreases s.len() - i,
{
    if 0 <= i < s.len() && spec_is_ascii_digit(s[i]) {
        spec_digits_end(s, i + 1)
    } else {
        i
    }
}

/// The tail from `p` on is an admissible exponent part: nothing at all, or
/// `e`/`E`, an optional sign and at least one digit reaching the end.
pub open spec fn spec_accepts_exponent(s: Seq<char>, p: int) -> bool {
    if p == s.len() {
        true
    } else if 0 <= p < s.len() && (s[p] == 'e' || s[p] == 'E') {
        let q = if p + 1 < s.len() && spec_is_sign_char(s[p + 1]) {
            p + 2
        } else {
            p + 1
        };
        q < s.len() && spec_digits_end(s, q) == s.len()
    } else {
        false
    }
}

/// The tail from `i` on is a number of the float grammar: digits with an
/// optional trailing point, or an optional integer part, a point and at
/// least one fractional digit; either form may close with an exponent.
pub open spec fn spec_accepts_number(s: Seq<char>, i: int) -> bool {
    let j = spec_digits_end(s, i);
    if 0 <= j < s.len() && s[j] == '.' {
        let k = spec_digits_end(s, j + 1);
        (j > i || k > j + 1) && spec_accepts_exponent(s, k)
    } else {
        j > i && spec_accepts_exponent(s, j)
    }
}

/// The lower-cased code of an ASCII letter; any other character's own code.
pub open spec fn spec_lower_code(c: char) -> int {
    if 'A' <= c <= 'Z' {
        c as int + 32
    } else {
        c as int
    }
}

/// The tail from `i` on spells `word` (given in lower case), ignoring
/// ASCII case.
pub open spec fn spec_tail_is_ci(s: Seq<char>, i: int, word: Seq<char>) -> bool {
    &&& s.len() - i == word.len()
    &&& forall|k: int|
        0 <= k < word.len() ==> spec_lower_code(s[i + k]) == (#[trigger] word[k]) as int
}

/// The float-literal grammar that `str::parse` documents for `f64`: an
/// optional sign, then `inf`, `infinity` or `nan` ignoring ASCII case, or
/// a number with an optional exponent. Decimal constants are checked
/// against it before the evaluator commits their digit strings.
pub open spec fn is_float_literal(s: Seq<char>) -> bool {
    if s.len() == 0 {
        false
    } else {
        let i: int = if spec_is_sign_char(s[0]) {
            1
        } else {
            0
        };
        ||| spec_tail_is_ci(s, i, seq!['i', 'n', 'f'])
        ||| spec_tail_is_ci(s, i, seq!['i', 'n', 'f', 'i', 'n', 'i', 't', 'y'])
        ||| spec_tail_is_ci(s, i, seq!['n', 'a', 'n'])
        ||| spec_accepts_number(s, i)
    }
}

/// Scans past a run of digits.
fn digits_end_in(s: &str, i: usize) -> (j: usize)
    requires
        i <= s@.len(),
    ensures
        j as int == spec_digits_end(s@, i as int),
        i <= j <= s@.len(),
    decreases s@.len() - i,
{
    if i < s.unicode_len() {
        let c = s.get_char(i);
        if c >= '0' && c <= '9' {
            digits_end_in(s, i + 1)
        } else {
            i
        }
    } else {
        i
    }
}

/// Decides the exponent part of the grammar.
fn accepts_exponent_in(s: &str, p: usize) -> (b: bool)
    requires
        p <= s@.len(),
    ensures
        b == spec_accepts_exponent(s@, p as int),
{
    let n = s.unicode_len();
    if p == n {
        return true;
    }
    let c = s.get_char(p);
    if c != 'e' && c != 'E' {
        return false;
    }
    let q = if p + 1 < n && {
        let c2 = s.get_char(p + 1);
        c2 == '+' || c2 == '-'
    } {
        p + 2
    } else {
        p + 1
    };
    q < n && digits_end_in(s, q) == n
}

/// Decides the number form of the grammar.
fn accepts_number_in(s: &str, i: usize) -> (b: bool)
    requires
        i <= s@.len(),
    ensures
        b == spec_accepts_number(s@, i as int),
{
    let n = s.unicode_len();
    let j = digits_end_in(s, i);
    if j < n && s.get_char(j) == '.' {
        let k = digits_end_in(s, j + 1);
        (j > i || k > j + 1) && accepts_exponent_in(s, k)
    } else {
        j > i && accepts_exponent_in(s, j)
    }
}

/// Compares the tail from `i` on with `word` (lower case), ignoring ASCII
/// case.
fn tail_is_ci_in(s: &str, i: usize, word: &str) -> (b: bool)
    requires
        i <= s@.len(),
        forall|k: int| 0 <= k < word@.len() ==> !('A' <= #[trigger] word@[k] <= 'Z'),
    ensures
        b == spec_tail_is_ci(s@, i as int, word@),
{
    let n = s.unicode_len();
    let m = word.unicode_len();
    if n - i != m {
        return false;
    }
    let mut k: usize = 0;
    while k < m
        invariant
            0 <= k <= m == word@.len(),
            i + m == n == s@.len(),
            forall|k2: int|
                0 <= k2 < k ==> spec_lower_code(s@[i + k2]) == (#[trigger] word@[k2]) as int,
        decreases m - k,
    {
        let c = s.get_char(i + k);
        let lc: u32 = if c >= 'A' && c <= 'Z' {
            c as u32 + 32
        } else {
            c as u32
        };
        let w = word.get_char(k);
        if lc != w as u32 {
            return false;
        }
        k = k + 1;
    }
    true
}

/// Decides [`is_float_literal`].
fn is_float_literal_in(s: &str) -> (b: bool)
    ensures
        b == is_float_literal(s@),
{
    let n = s.unicode_len();
    if n == 0 {
        return false;
    }
    let c = s.get_char(0);
    let i: usize = if c == '+' || c == '-' {
        1
    } else {
        0
    };
    proof {
        reveal_strlit("inf");
        reveal_strlit("infinity");
        reveal_strlit("nan");
        assert("inf"@ =~= seq!['i', 'n', 'f']);
        assert("infinity"@ =~= seq!['i', 'n', 'f', 'i', 'n', 'i', 't', 'y']);
        assert("nan"@ =~= seq!['n', 'a', 'n']);
    }
    tail_is_ci_in(s, i, "inf") || tail_is_ci_in(s, i, "infinity") || tail_is_ci_in(s, i, "nan")
        || accepts_number_in(s, i)
}

/// Evaluates one fragment.
fn eval_term_fragment(f: &TermFragment) -> (r: CalculationResult)
    ensures
        calculation_result_matches(r, spec_eval_fragment(f.model())),
    decreases f, 1nat, 0nat,
{
    proof {
        reveal_with_fuel(Value::model, 3);
    }
    match eval_magnitude(&f.fragment_magnitude) {
        Ok(magnitude) => {
            let signed_value = if f.sign == Sign::Negative {
                Value::Negated(Box::new(magnitude.value))
            } else {
                magnitude.value
            };
            let unit = match magnitude.unit {
                Some(u) => Some(u),
                None => f.angle_unit,
            };
            let value = if f.multiplied_or_divided == MultipliedOrDivided::Divided {
                Value::Reciprocal(Box::new(signed_value))
            } else {
                signed_value
            };
            Ok(Inexact { value, unit })
        },
        Err(m) => Err(m),
    }
}

/// Evaluates one magnitude.
fn eval_magnitude(m: &TermFragmentMagnitude) -> (r: CalculationResult)
    ensures
        calculation_result_matches(r, spec_eval_magnitude(m.model())),
    decreases m, 1nat, 0nat,
{
    proof {
        reveal_with_fuel(Value::model, 3);
    }
    match m {
        TermFragmentMagnitude::Bracket(e) => expression_to_inexact(e),
        TermFragmentMagnitude::Function(f) => eval_function(f),
        TermFragmentMagnitude::NamedConstant { coefficient, constant } => {
            match expression_to_inexact(coefficient) {
                Ok(c) => Ok(
                    Inexact {
                        value: Value::Product(
                            Box::new(c.value),
                            Box::new(
                                match constant {
                                    NamedConstant::Pi => Value::Pi,
                                    NamedConstant::E => Value::E,
                                },
                            ),
                        ),
                        unit: c.unit,
                    },
                ),
                Err(err) => Err(err),
            }
        },
        TermFragmentMagnitude::NonNamedConstant(c) => {
            match c {
                UnnamedConstant::Integer(n) => Ok(
                    Inexact { value: Value::Integer(*n), unit: None },
                ),
                UnnamedConstant::Decimal { before_decimal_point, after_decimal_point } => {
                    let mut joined = before_decimal_point.clone();
                    joined.push('.');
                    joined.append(after_decimal_point.as_str());
                    proof {
                        assert(joined@ =~= before_decimal_point@ + seq!['.']
                            + after_decimal_point@);
                    }
                    if is_float_literal_in(joined.as_str()) {
                        Ok(
                            Inexact {
                                value: Value::Decimal {
                                    before_decimal_point: before_decimal_point.clone(),
                                    after_decimal_point: after_decimal_point.clone(),
                                },
                                unit: None,
                            },
                        )
                    } else {
                        Err(CalculationError::new(String::from_str("invalid float literal")))
                    }
                },
                UnnamedConstant::Fraction { numerator, denominator } => {
                    match expression_to_radians_if_possible(numerator) {
                        Ok(n) => match expression_to_radians_if_possible(denominator) {
                            Ok(d) => Ok(
                                Inexact {
                                    value: Value::Quotient(Box::new(n.value), Box::new(d.value)),
                                    unit: n.unit,
                                },
                            ),
                            Err(err) => Err(err),
                        },
                        Err(err) => Err(err),
                    }
                },
                UnnamedConstant::Power { base, exponent } => {
                    match expression_to_inexact(base) {
                        Ok(b) => match expression_to_inexact(exponent) {
                            Ok(ex) => Ok(
                                Inexact {
                                    value: Value::Power(Box::new(b.value), Box::new(ex.value)),
                                    unit: b.unit,
                                },
                            ),
                            Err(err) => Err(err),
                        },
                        Err(err) => Err(err),
                    }
                },
            }
        },
    }
}

/// Evaluates one function application.
fn eval_function(f: &Function) -> (r: CalculationResult)
    ensures
        calculation_result_matches(r, spec_eval_function(f.model())),
    decreases f, 1nat, 0nat,
{
    proof {
        reveal_with_fuel(Value::model, 3);
    }
    match f {
        Function::Absolute(e) => match expression_to_inexact(e) {
            Ok(v) => Ok(
                Inexact { value: Value::AbsoluteValue(Box::new(v.value)), unit: v.unit },
            ),
            Err(err) => Err(err),
        },
        Function::NthRoot(degree, radicand) => match expression_to_inexact(degree) {
            Ok(d) => match expression_to_inexact(radicand) {
                Ok(under) => Ok(
                    Inexact {
                        value: Value::Power(
                            Box::new(under.value),
                            Box::new(Value::Reciprocal(Box::new(d.value))),
                        ),
                        unit: under.unit,
                    },
                ),
                Err(err) => Err(err),
            },
            Err(err) => Err(err),
        },
        Function::Sin(e) => match expression_to_radians_if_possible(e) {
            Ok(v) => Ok(Inexact { value: Value::Sine(Box::new(v.value)), unit: None }),
            Err(err) => Err(err),
        },
        Function::Cos(e) => match expression_to_radians_if_possible(e) {
            Ok(v) => Ok(Inexact { value: Value::Cosine(Box::new(v.value)), unit: None }),
            Err(err) => Err(err),
        },
        Function::Tan(e) => match expression_to_radians_if_possible(e) {
            Ok(v) => Ok(Inexact { value: Value::Tangent(Box::new(v.value)), unit: None }),
            Err(err) => Err(err),
        },
        Function::Arcsin(e) => match expression_to_inexact(e) {
            Ok(v) => Ok(
                Inexact {
                    value: Value::Arcsine(Box::new(v.value)),
                    unit: Some(AngleUnit::Radians),
                },
            ),
            Err(err) => Err(err),
        },
        Function::Arccos(e) => match expression_to_inexact(e) {
            Ok(v) => Ok(
                Inexact {
                    value: Value::Arccosine(Box::new(v.value)),
                    unit: Some(AngleUnit::Radians),
                },
            ),
            Err(err) => Err(err),
        },
        Function::Arctan(e) => match expression_to_inexact(e) {
            Ok(v) => Ok(
                Inexact {
                    value: Value::Arctangent(Box::new(v.value)),
                    unit: Some(AngleUnit::Radians),
                },
            ),
            Err(err) => Err(err),
        },
    }
}

/// Evaluates an expression and converts a degree-tagged value to radians
/// (fractions and trigonometric arguments are computed in a
/// radian-consistent frame).
fn expression_to_radians_if_possible(e: &Expression) -> (r: CalculationResult)
    ensures
        calculation_result_matches(r, spec_eval_expression_to_radians(expression_model(e@))),
    decreases e, 2nat, 0nat,
{
    match expression_to_inexact(e) {
        Ok(v) => {
            if v.unit == Some(AngleUnit::Degrees) {
                Ok(Inexact { value: Value::ToRadians(Box::new(v.value)), unit: v.unit })
            } else {
                Ok(v)
            }
        },
        Err(err) => Err(err),
    }
}

/// Folds the remaining fragments of a term into `acc`.
fn eval_fragments(fragments: &Vec<TermFragment>, i: usize, acc: Inexact) -> (r: CalculationResult)
    requires
        i <= fragments@.len(),
    ensures
        calculation_result_matches(
            r,
            spec_eval_fragments(
                crate::expression::fragments_model(fragments@),
                i as int,
                acc.model(),
            ),
        ),
    decreases fragments, 0nat, fragments@.len() - i,
{
    proof {
        lemma_fragments_model_len(fragments@);
    }
    if i >= fragments.len() {
        Ok(acc)
    } else {
        proof {
            lemma_fragments_model_index(fragments@, i as int);
        }
        match eval_term_fragment(&fragments[i]) {
            Ok(v) => {
                let a2 = acc.into_radians();
                let b2 = v.into_radians();
                let unit = match a2.unit {
                    Some(u) => Some(u),
                    None => b2.unit,
                };
                let combined = Inexact {
                    value: Value::Product(Box::new(a2.value), Box::new(b2.value)),
                    unit,
                };
                eval_fragments(fragments, i + 1, combined)
            },
            Err(err) => Err(err),
        }
    }
}

/// Evaluates one term: the left fold of its fragments under the
/// multiplication rule; an empty term is an error.
pub fn term_to_inexact(t: &Term) -> (r: CalculationResult)
    ensures
        calculation_result_matches(r, spec_eval_term(t.model())),
    decreases t, 1nat, 0nat,
{
    proof {
        lemma_fragments_model_len(t.fragments@);
    }
    if t.fragments.len() == 0 {
        return Err(CalculationError::new(String::from_str("unexpected empty term")));
    }
    proof {
        lemma_fragments_model_index(t.fragments@, 0);
    }
    match eval_term_fragment(&t.fragments[0]) {
        Ok(first) => eval_fragments(&t.fragments, 1, first),
        Err(err) => Err(err),
    }
}

/// Folds the remaining terms of an expression into `acc`.
fn eval_terms(terms: &Expression, i: usize, acc: Inexact) -> (r: CalculationResult)
    requires
        i <= terms@.len(),
    ensures
        calculation_result_matches(
            r,
            spec_eval_terms(expression_model(terms@), i as int, acc.model()),
        ),
    decreases terms, 0nat, terms@.len() - i,
{
    proof {
        lemma_expression_model_len(terms@);
    }
    if i >= terms.len() {
        Ok(acc)
    } else {
        proof {
            lemma_expression_model_index(terms@, i as int);
        }
        match term_to_inexact(&terms[i]) {
            Ok(v) => {
                let a2 = acc.into_radians();
                let b2 = v.into_radians();
                let unit = match a2.unit {
                    Some(u) => Some(u),
                    None => b2.unit,
                };
                let combined = Inexact {
                    value: Value::Sum(Box::new(a2.value), Box::new(b2.value)),
                    unit,
                };
                eval_terms(terms, i + 1, combined)
            },
            Err(err) => Err(err),
        }
    }
}

/// Evaluates a whole expression: the left fold of its terms under the
/// addition rule; an empty expression is an error. The result is exactly
/// [`spec_eval_expression`] of the expression's model.
pub fn expression_to_inexact(expression: &Expression) -> (r: CalculationResult)
    ensures
        calculation_result_matches(r, spec_eval_expression(expression_model(expression@))),
    decreases expression, 1nat, 0nat,
{
    proof {
        lemma_expression_model_len(expression@);
    }
    if expression.len() == 0 {
        return Err(CalculationError::new(String::from_str("empty expression")));
    }
    proof {
        lemma_expression_model_index(expression@, 0);
    }
    match term_to_inexact(&expression[0]) {
        Ok(first) => eval_terms(expression, 1, first),
        Err(err) => Err(err),
    }
}

/// The model of a term sequence has the sequence's length.
proof fn lemma_expression_model_len(terms: Seq<Term>)
    ensures
        expression_model(terms).len() == terms.len(),
    decreases terms.len(),
{
    if terms.len() > 0 {
        lemma_expression_model_len(terms.subrange(1, terms.len() as int));
    }
}

/// The model of a term sequence is the sequence of term models.
proof fn lemma_expression_model_index(terms: Seq<Term>, k: int)
    requires
        0 <= k < terms.len(),
    ensures
        expression_model(terms)[k] == terms[k].model(),
    decreases terms.len(),
{
    lemma_expression_model_len(terms);
    if k > 0 {
        let rest = terms.subrange(1, terms.len() as int);
        lemma_expression_model_index(rest, k - 1);
        assert(rest[k - 1] == terms[k]);
    }
}

/// The model of a fragment sequence has the sequence's length.
proof fn lemma_fragments_model_len(fragments: Seq<TermFragment>)
    ensures
        crate::expression::fragments_model(fragments).len() == fragments.len(),
    decreases fragments.len(),
{
    if fragments.len() > 0 {
        lemma_fragments_model_len(fragments.subrange(1, fragments.len() as int));
    }
}

/// The model of a fragment sequence is the sequence of fragment models.
proof fn lemma_fragments_model_index(fragments: Seq<TermFragment>, k: int)
    requires
        0 <= k < fragments.len(),
    ensures
        crate::expression::fragments_model(fragments)[k] == fragments[k].model(),
    decreases fragments.len(),
{
    lemma_fragments_model_len(fragments);
    if k > 0 {
        let rest = fragments.subrange(1, fragments.len() as int);
        lemma_fragments_model_index(rest, k - 1);
        assert(rest[k - 1] == fragments[k]);
    }
}

/// LAW — inverse-trig unit law: an inverse trigonometric application that
/// evaluates successfully is always tagged radians, regardless of any unit
/// annotation inside its argument.
pub proof fn lemma_inverse_trig_unit(f: SpecFunction)
    requires
        f is Arcsin || f is Arccos || f is Arctan,
    ensures
        spec_eval_function(f) matches Ok(v) ==> v.unit == Some(AngleUnit::Radians),
{
}

/// LAW — direct trigonometric functions normalize internally and drop the
/// unit: a successful sine, cosine or tangent application carries no unit.
pub proof fn lemma_trig_unit_dropped(f: SpecFunction)
    requires
        f is Sin || f is Cos || f is Tan,
    ensures
        spec_eval_function(f) matches Ok(v) ==> v.unit is None,
{
}

/// LAW — unit suffix propagation: when a fragment's magnitude evaluates to
/// a unit-free value, the fragment's own angle-unit suffix becomes the unit
/// of the fragment's result (magnitude-level units take precedence and are
/// covered by the complementary law below).
pub proof fn lemma_fragment_unit_suffix(f: SpecFragment)
    requires
        spec_eval_magnitude(f.fragment_magnitude) matches Ok(m) && m.unit is None,
    ensures
        spec_eval_fragment(f) matches Ok(v) && v.unit == f.angle_unit,
{
}

/// LAW — magnitude units take precedence: when a fragment's magnitude
/// carries a unit, that unit is the fragment's unit and the suffix is
/// ignored.
pub proof fn lemma_fragment_unit_precedence(f: SpecFragment)
    requires
        spec_eval_magnitude(f.fragment_magnitude) matches Ok(m) && m.unit is Some,
    ensures
        spec_eval_magnitude(f.fragment_magnitude) matches Ok(m) ==> (spec_eval_fragment(f)
            matches Ok(v) && v.unit == m.unit),
{
}

/// LAW: integer literals evaluate to themselves. A non-empty run of digit
/// tokens whose value fits the unsigned precision parses successfully, and
/// evaluating the parsed expression yields exactly that integer with no
/// angle unit.
pub proof fn lemma_integer_literal_round_trip(ts: Seq<crate::erasable::Erasable>)
    requires
        ts.len() > 0,
        forall|k: int|
            0 <= k < ts.len() ==> (#[trigger] ts[k]).spec_erasable_type()
                is Digit,
        crate::parsers::digits_val(crate::parsers::token_chars_from(ts, 0)) <= u64::MAX,
    ensures
        ({
            let v = crate::parsers::digits_val(crate::parsers::token_chars_from(ts, 0)) as u64;
            &&& crate::parsers::spec_parse_into_expression(ts) is Ok
            &&& (crate::parsers::spec_parse_into_expression(ts) matches Ok(e) ==> spec_eval_expression(
                e,
            ) == Ok::<SpecInexact, Seq<char>>(
                SpecInexact { value: SpecValue::Integer(v), unit: None },
            ))
        }),
{
    crate::parsers::lemma_integer_literal_parses(ts);
    let v = crate::parsers::digits_val(crate::parsers::token_chars_from(ts, 0)) as u64;
    let fragment = SpecFragment {
        sign: Sign::Positive,
        fragment_magnitude: SpecMagnitude::NonNamedConstant(SpecConstant::Integer(v)),
        multiplied_or_divided: MultipliedOrDivided::Neither,
        angle_unit: None,
    };
    let term = SpecTerm { fragments: seq![fragment] };
    let e = seq![term];
    let result = SpecInexact { value: SpecValue::Integer(v), unit: None };
    assert(spec_eval_magnitude(fragment.fragment_magnitude) == Ok::<SpecInexact, Seq<char>>(
        result,
    ));
    assert(spec_eval_fragment(fragment) == Ok::<SpecInexact, Seq<char>>(result));
    assert(spec_eval_fragments(term.fragments, 1, result) == Ok::<SpecInexact, Seq<char>>(result));
    assert(spec_eval_term(term) == Ok::<SpecInexact, Seq<char>>(result));
    assert(spec_eval_terms(e, 1, result) == Ok::<SpecInexact, Seq<char>>(result));
    assert(spec_eval_expression(e) == Ok::<SpecInexact, Seq<char>>(result));
}

/// LAW: combination normalizes to radians. The unit-combination rule used
/// for both addition and multiplication re-expresses degree-tagged
/// operands in radians first, so a combined result is never tagged
/// degrees; and it carries a unit exactly when one of its operands does.
pub proof fn lemma_combination_normalizes(a: SpecInexact, b: SpecInexact)
    ensures
        spec_add(a, b).unit != Some(AngleUnit::Degrees),
        spec_mul(a, b).unit != Some(AngleUnit::Degrees),
        (spec_add(a, b).unit is Some) == (a.unit is Some || b.unit is Some),
        (spec_mul(a, b).unit is Some) == (a.unit is Some || b.unit is Some),
{
}

} // verus!
