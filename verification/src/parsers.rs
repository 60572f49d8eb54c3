//! The recursive-descent parser: token sequence to expression tree.
//!
//! The grammar is term/fragment based: an expression is a run of terms, a
//! term is a run of fragments, and a fragment is an optional operator prefix,
//! a base (number, named constant, bracketed sub-expression or function
//! call) and up to two trailing annotations (an exponent and an angle unit).
//! The token stream is logically prefixed with a synthetic `+` so the very
//! first fragment of the whole expression is classified as the start of a
//! term; [`crate::wrapped_iter::WrappedIter`] performs that prefixing.
//!
//! Every executable function here is proved to return exactly what its
//! `spec_...` mirror computes; the mirrors, over `Seq<Erasable>` and an
//! integer cursor, are the parser's definition. A handful of guards of the
//! form `if j > i { ... }` in the mirrors only serve their termination
//! arguments; the executable functions prove that the guards always hold.

use vstd::prelude::*;

use crate::erasable::{Erasable, ErasableType};
use crate::errors::{ParsingError, SpecParsingError};
use crate::expression::{
    expression_model, fragments_model, lemma_fragments_model_push, AngleUnit, Expression, Function, MultipliedOrDivided, NamedConstant, SpecConstant,
    SpecExpression, SpecFragment, SpecFunction, SpecMagnitude, SpecTerm, Term, TermFragment,
    UnsignedValuePrecision,
    TermFragmentMagnitude, UnnamedConstant,
};
use crate::sign::Sign;

verus! {

/// The outcome of one parsing step: a parsed value, the end of the input
/// (nothing left to parse at this level), or a hard failure.
pub enum ParsingResult<T> {
    Found(T),
    Absent,
    Failed(ParsingError),
}

/// Model counterpart of [`ParsingResult`].
pub enum SpecParsingResult<T> {
    Found(T),
    Absent,
    Failed(SpecParsingError),
}

/// The model of a sequence of expressions, element by element.
pub open spec fn expressions_model(es: Seq<Expression>) -> Seq<SpecExpression>
    decreases es,
{
    if es.len() == 0 {
        Seq::empty()
    } else {
        seq![expression_model(es[0]@)] + expressions_model(es.subrange(1, es.len() as int))
    }
}

/// The numeric value of a digit character; zero for any other character.
pub open spec fn char_digit(c: char) -> nat {
    if '0' <= c <= '9' {
        (c as nat - '0' as nat) as nat
    } else {
        0
    }
}

/// Every character of the sequence is a decimal digit.
pub open spec fn all_digits(s: Seq<char>) -> bool {
    forall|i: int| 0 <= i < s.len() ==> '0' <= #[trigger] s[i] <= '9'
}

/// The value of a digit string read in base ten.
pub open spec fn digits_val(s: Seq<char>) -> nat
    decreases s.len(),
{
    if s.len() == 0 {
        0
    } else {
        digits_val(s.subrange(0, s.len() - 1)) * 10 + char_digit(s[s.len() - 1])
    }
}

/// The expression `n`: one term of one positive, multiplied, unit-free
/// integer fragment.
pub open spec fn spec_integer_as_expression(n: u64) -> SpecExpression {
    seq![
        SpecTerm {
            fragments: seq![
                SpecFragment {
                    sign: Sign::Positive,
                    fragment_magnitude: SpecMagnitude::NonNamedConstant(SpecConstant::Integer(n)),
                    multiplied_or_divided: MultipliedOrDivided::Multiplied,
                    angle_unit: None,
                },
            ],
        },
    ]
}

/// Mirror of the digit-run collector: starting at `i`, accumulate a maximal
/// run of digits, at most one decimal point and interleaved formatting
/// tokens, then close the run off as an integer or a decimal constant.
#[verifier::opaque]
pub open spec fn spec_parse_digit_run(
    s: Seq<Erasable>,
    i: int,
    seen_point: bool,
    before: Seq<char>,
    after: Seq<char>,
) -> (SpecParsingResult<SpecConstant>, int)
    decreases s.len() - i, 1nat, 0nat,
{
    if 0 <= i < s.len() {
        let e = s[i];
        match e.spec_erasable_type() {
            ErasableType::Digit => if seen_point {
                spec_parse_digit_run(s, i + 1, seen_point, before, after.push(e.spec_char()))
            } else {
                spec_parse_digit_run(s, i + 1, seen_point, before.push(e.spec_char()), after)
            },
            ErasableType::DecimalPoint => if seen_point {
                (SpecParsingResult::Failed(SpecParsingError::ExcessiveDecimalPoints), i)
            } else {
                spec_parse_digit_run(s, i + 1, true, before, after)
            },
            ErasableType::Formatting => spec_parse_digit_run(s, i + 1, seen_point, before, after),
            _ => spec_close_digit_run(seen_point, before, after, i),
        }
    } else {
        spec_close_digit_run(seen_point, before, after, i)
    }
}

/// How a finished digit run becomes a constant: a decimal keeps its digit
/// strings verbatim; an integer must hold at least one digit and fit the
/// unsigned precision, else the run fails with the message integer parsing
/// gives for an empty string or an overflowing one.
pub open spec fn spec_close_digit_run(
    seen_point: bool,
    before: Seq<char>,
    after: Seq<char>,
    i: int,
) -> (SpecParsingResult<SpecConstant>, int) {
    if seen_point {
        (
            SpecParsingResult::Found(
                SpecConstant::Decimal { before_decimal_point: before, after_decimal_point: after },
            ),
            i,
        )
    } else if before.len() == 0 {
        (
            SpecParsingResult::Failed(
                SpecParsingError::Custom("cannot parse integer from empty string"@),
            ),
            i,
        )
    } else if digits_val(before) <= u64::MAX {
        (SpecParsingResult::Found(SpecConstant::Integer(digits_val(before) as u64)), i)
    } else {
        (
            SpecParsingResult::Failed(
                SpecParsingError::Custom("number too large to fit in target type"@),
            ),
            i,
        )
    }
}

/// Mirror of `parse_into_int_or_decimal`: a digit run with empty
/// accumulators.
pub open spec fn spec_parse_into_int_or_decimal(s: Seq<Erasable>, i: int) -> (
    SpecParsingResult<SpecConstant>,
    int,
) {
    spec_parse_digit_run(s, i, false, Seq::empty(), Seq::empty())
}

/// Mirror of the sign-counting loop: consume `+`, `-` and formatting tokens,
/// counting the minus signs.
#[verifier::opaque]
pub open spec fn spec_count_signs(s: Seq<Erasable>, i: int, negatives: nat) -> (nat, int)
    decreases s.len() - i, 0nat, 0nat,
{
    if 0 <= i < s.len() {
        match s[i] {
            Erasable::PlusSign => spec_count_signs(s, i + 1, negatives),
            Erasable::NegativeSign => spec_count_signs(s, i + 1, negatives + 1),
            e => if e.spec_erasable_type() is Formatting {
                spec_count_signs(s, i + 1, negatives)
            } else {
                (negatives, i)
            },
        }
    } else {
        (negatives, i)
    }
}

/// Mirror of `parse_term_fragment_operators`: an optional single `*` or `/`
/// fixes the combinator, then any run of `+`/`-`/formatting tokens fixes the
/// sign by the parity of the minus count.
#[verifier::opaque]
pub open spec fn spec_parse_term_fragment_operators(s: Seq<Erasable>, i: int) -> (
    (Option<Sign>, Option<MultipliedOrDivided>),
    int,
)
    decreases s.len() - i, 1nat, 0nat,
{
    let (multiplied_or_divided, j) = if 0 <= i < s.len() {
        match s[i] {
            Erasable::MultiplicationSign => (MultipliedOrDivided::Multiplied, i + 1),
            Erasable::DivisionSign => (MultipliedOrDivided::Divided, i + 1),
            _ => (MultipliedOrDivided::Neither, i),
        }
    } else {
        (MultipliedOrDivided::Neither, i)
    };
    let (negatives, k) = spec_count_signs(s, j, 0);
    let sign = if negatives % 2 == 0 {
        Sign::Positive
    } else {
        Sign::Negative
    };
    ((Some(sign), Some(multiplied_or_divided)), k)
}

/// Mirror of the bracket-interior collector: starting just inside an opening
/// bracket at depth `depth`, collect tokens until the matching closing
/// bracket; running out of input is a bracket mismatch.
#[verifier::opaque]
pub open spec fn spec_collect_bracket_tokens(
    s: Seq<Erasable>,
    i: int,
    depth: nat,
    acc: Seq<Erasable>,
) -> (SpecParsingResult<Seq<Erasable>>, int)
    decreases s.len() - i, 0nat, 0nat,
{
    if 0 <= i < s.len() {
        let e = s[i];
        match e.spec_erasable_type() {
            ErasableType::OpeningBracket => spec_collect_bracket_tokens(
                s,
                i + 1,
                depth + 1,
                acc.push(e),
            ),
            ErasableType::ClosingBracket => if depth == 1 {
                (SpecParsingResult::Found(acc), i + 1)
            } else {
                spec_collect_bracket_tokens(s, i + 1, (depth - 1) as nat, acc.push(e))
            },
            _ => spec_collect_bracket_tokens(s, i + 1, depth, acc.push(e)),
        }
    } else {
        (SpecParsingResult::Failed(SpecParsingError::MismatchedBrackets), i)
    }
}

/// Mirror of `parse_term_fragment_brackets`: consume an opening bracket,
/// collect the interior up to the matching closing bracket, and parse the
/// interior as a complete expression. An inner parse error is wrapped as a
/// custom error carrying its display line.
#[verifier::opaque]
pub open spec fn spec_parse_term_fragment_brackets(s: Seq<Erasable>, i: int) -> (
    SpecParsingResult<SpecExpression>,
    int,
)
    decreases s.len() - i, 1nat, 0nat,
{
    if !(0 <= i < s.len()) {
        (SpecParsingResult::Failed(SpecParsingError::EndOfInput), i)
    } else if s[i].spec_erasable_type() != ErasableType::OpeningBracket {
        (
            SpecParsingResult::Failed(
                SpecParsingError::ExpectedButFound {
                    expected: "opening bracket"@,
                    found: s[i].spec_display(),
                },
            ),
            i + 1,
        )
    } else {
        match spec_collect_bracket_tokens(s, i + 1, 1, Seq::empty()) {
            (SpecParsingResult::Found(inner), j) => if inner.len() + 2 <= s.len() - i {
                match spec_parse_into_expression(inner) {
                    Ok(expression) => (SpecParsingResult::Found(expression), j),
                    Err(pe) => (
                        SpecParsingResult::Failed(SpecParsingError::Custom(pe.display())),
                        j,
                    ),
                }
            } else {
                (SpecParsingResult::Absent, j)
            },
            (SpecParsingResult::Failed(pe), j) => (SpecParsingResult::Failed(pe), j),
            (SpecParsingResult::Absent, j) => (SpecParsingResult::Absent, j),
        }
    }
}

/// Mirror of the argument-token collector: like the bracket collector, but a
/// top-level comma also ends the collection. The boolean is true when the
/// collection ended at the closing bracket of the argument list.
#[verifier::opaque]
pub open spec fn spec_collect_argument_tokens(
    s: Seq<Erasable>,
    i: int,
    depth: nat,
    acc: Seq<Erasable>,
) -> (SpecParsingResult<(Seq<Erasable>, bool)>, int)
    decreases s.len() - i, 0nat, 0nat,
{
    if 0 <= i < s.len() {
        let e = s[i];
        match e.spec_erasable_type() {
            ErasableType::OpeningBracket => spec_collect_argument_tokens(
                s,
                i + 1,
                depth + 1,
                acc.push(e),
            ),
            ErasableType::ClosingBracket => if depth == 1 {
                (SpecParsingResult::Found((acc, true)), i + 1)
            } else {
                spec_collect_argument_tokens(s, i + 1, (depth - 1) as nat, acc.push(e))
            },
            ErasableType::Comma => if depth == 1 {
                (SpecParsingResult::Found((acc, false)), i + 1)
            } else {
                spec_collect_argument_tokens(s, i + 1, depth, acc.push(e))
            },
            _ => spec_collect_argument_tokens(s, i + 1, depth, acc.push(e)),
        }
    } else {
        (SpecParsingResult::Failed(SpecParsingError::MismatchedBrackets), i)
    }
}

/// Mirror of the argument-list loop: split the interior of the list by
/// top-level commas, parsing each slice as a complete expression as it is
/// closed off. An inner parse error is wrapped as a custom error carrying
/// its display line.
#[verifier::opaque]
pub open spec fn spec_parse_argument_list(
    s: Seq<Erasable>,
    i: int,
    acc: Seq<SpecExpression>,
) -> (SpecParsingResult<Seq<SpecExpression>>, int)
    decreases s.len() - i, 6nat, 0nat,
{
    match spec_collect_argument_tokens(s, i, 1, Seq::empty()) {
        (SpecParsingResult::Found((tokens, ended_by_close)), j) => if tokens.len() + 1 <= s.len()
            - i {
            match spec_parse_into_expression(tokens) {
                Ok(argument) => if ended_by_close {
                    (SpecParsingResult::Found(acc.push(argument)), j)
                } else if i < j <= s.len() {
                    spec_parse_argument_list(s, j, acc.push(argument))
                } else {
                    (SpecParsingResult::Absent, j)
                },
                Err(pe) => (SpecParsingResult::Failed(SpecParsingError::Custom(pe.display())), j),
            }
        } else {
            (SpecParsingResult::Absent, j)
        },
        (SpecParsingResult::Failed(pe), j) => (SpecParsingResult::Failed(pe), j),
        (SpecParsingResult::Absent, j) => (SpecParsingResult::Absent, j),
    }
}

/// Mirror of `parse_function_argument_list`: consume the opening bracket of
/// the list, then collect the comma-separated arguments.
#[verifier::opaque]
pub open spec fn spec_parse_function_argument_list(s: Seq<Erasable>, i: int) -> (
    SpecParsingResult<Seq<SpecExpression>>,
    int,
)
    decreases s.len() - i, 7nat, 0nat,
{
    if !(0 <= i < s.len()) {
        (SpecParsingResult::Failed(SpecParsingError::EndOfInput), i)
    } else if s[i].spec_erasable_type() != ErasableType::OpeningBracket {
        (SpecParsingResult::Failed(SpecParsingError::Unexpected("opening bracket"@)), i + 1)
    } else {
        spec_parse_argument_list(s, i + 1, Seq::empty())
    }
}

/// Mirror of `parse_function`: the function-name token, then its argument
/// list; one argument for every function but `NthRoot`, which takes two.
#[verifier::opaque]
pub open spec fn spec_parse_function(s: Seq<Erasable>, i: int) -> (
    SpecParsingResult<SpecMagnitude>,
    int,
)
    decreases s.len() - i, 1nat, 0nat,
{
    if !(0 <= i < s.len()) {
        (SpecParsingResult::Failed(SpecParsingError::EndOfInput), i)
    } else {
        let name = s[i];
        match spec_parse_function_argument_list(s, i + 1) {
            (SpecParsingResult::Found(arguments), j) => if arguments.len() < 1 {
                (SpecParsingResult::Failed(SpecParsingError::EndOfInput), j)
            } else {
                let first = arguments[0];
                match name {
                    Erasable::Absolute => (
                        SpecParsingResult::Found(
                            SpecMagnitude::Function(SpecFunction::Absolute(first)),
                        ),
                        j,
                    ),
                    Erasable::Sin => (
                        SpecParsingResult::Found(SpecMagnitude::Function(SpecFunction::Sin(first))),
                        j,
                    ),
                    Erasable::Cos => (
                        SpecParsingResult::Found(SpecMagnitude::Function(SpecFunction::Cos(first))),
                        j,
                    ),
                    Erasable::Tan => (
                        SpecParsingResult::Found(SpecMagnitude::Function(SpecFunction::Tan(first))),
                        j,
                    ),
                    Erasable::Arcsin => (
                        SpecParsingResult::Found(
                            SpecMagnitude::Function(SpecFunction::Arcsin(first)),
                        ),
                        j,
                    ),
                    Erasable::Arccos => (
                        SpecParsingResult::Found(
                            SpecMagnitude::Function(SpecFunction::Arccos(first)),
                        ),
                        j,
                    ),
                    Erasable::Arctan => (
                        SpecParsingResult::Found(
                            SpecMagnitude::Function(SpecFunction::Arctan(first)),
                        ),
                        j,
                    ),
                    Erasable::NthRoot => if arguments.len() < 2 {
                        (SpecParsingResult::Failed(SpecParsingError::EndOfInput), j)
                    } else {
                        (
                            SpecParsingResult::Found(
                                SpecMagnitude::Function(
                                    SpecFunction::NthRoot(first, arguments[1]),
                                ),
                            ),
                            j,
                        )
                    },
                    _ => (
                        SpecParsingResult::Failed(
                            SpecParsingError::ExpectedButFound {
                                expected: "function name"@,
                                found: name.spec_display(),
                            },
                        ),
                        j,
                    ),
                }
            },
            (SpecParsingResult::Failed(pe), j) => (SpecParsingResult::Failed(pe), j),
            (SpecParsingResult::Absent, j) => (SpecParsingResult::Absent, j),
        }
    }
}

/// Mirror of the suffix loop: after a fragment's base, up to two trailing
/// annotations are taken in sequence. An exponent placeholder rewraps the
/// fragment as a power whose sign is reset to positive (the original sign
/// would otherwise be applied twice); an angle-unit token tags the fragment.
#[verifier::opaque]
pub open spec fn spec_parse_fragment_suffixes(
    s: Seq<Erasable>,
    i: int,
    fragment: SpecFragment,
    rounds: nat,
) -> (SpecParsingResult<SpecFragment>, int)
    decreases s.len() - i, 2nat, rounds,
{
    if rounds == 0 {
        (SpecParsingResult::Found(fragment), i)
    } else if 0 <= i < s.len() {
        match s[i] {
            Erasable::ExponentPlaceholder => {
                match spec_parse_term_fragment(s, i + 1, None, None) {
                    (SpecParsingResult::Found(exponent), j) => {
                        let rewrapped = SpecFragment {
                            fragment_magnitude: SpecMagnitude::NonNamedConstant(
                                SpecConstant::Power {
                                    base: seq![SpecTerm { fragments: seq![fragment] }],
                                    exponent: seq![SpecTerm { fragments: seq![exponent] }],
                                },
                            ),
                            sign: Sign::Positive,
                            multiplied_or_divided: fragment.multiplied_or_divided,
                            angle_unit: fragment.angle_unit,
                        };
                        if i < j <= s.len() {
                            spec_parse_fragment_suffixes(s, j, rewrapped, (rounds - 1) as nat)
                        } else {
                            (SpecParsingResult::Absent, j)
                        }
                    },
                    (SpecParsingResult::Absent, j) => (SpecParsingResult::Absent, j),
                    (SpecParsingResult::Failed(pe), j) => (SpecParsingResult::Failed(pe), j),
                }
            },
            Erasable::Degrees => spec_parse_fragment_suffixes(
                s,
                i + 1,
                SpecFragment { angle_unit: Some(AngleUnit::Degrees), ..fragment },
                (rounds - 1) as nat,
            ),
            Erasable::Radians => spec_parse_fragment_suffixes(
                s,
                i + 1,
                SpecFragment { angle_unit: Some(AngleUnit::Radians), ..fragment },
                (rounds - 1) as nat,
            ),
            _ => (SpecParsingResult::Found(fragment), i),
        }
    } else {
        (SpecParsingResult::Found(fragment), i)
    }
}

/// Mirror of `parse_term_fragment`: dispatch on the category of the next
/// token to parse one fragment, then scan its suffixes. `sign` and
/// `multiplied_or_divided` are what a leading-operator run already
/// determined, if any; absent values default to positive and multiplied.
///
/// A fraction-divider token is not consumed by this grammar and is rejected
/// here like the other tokens that cannot start a fragment.
#[verifier::opaque]
pub open spec fn spec_parse_term_fragment(
    s: Seq<Erasable>,
    i: int,
    sign: Option<Sign>,
    multiplied_or_divided: Option<MultipliedOrDivided>,
) -> (SpecParsingResult<SpecFragment>, int)
    decreases s.len() - i, 2nat, 0nat,
{
    if !(0 <= i < s.len()) {
        (SpecParsingResult::Absent, i)
    } else {
        let e = s[i];
        let sign_value = match sign {
            Some(sg) => sg,
            None => Sign::Positive,
        };
        let combinator = match multiplied_or_divided {
            Some(m) => m,
            None => MultipliedOrDivided::Multiplied,
        };
        let base = match e.spec_erasable_type() {
            ErasableType::ClosingBracket => (
                SpecParsingResult::Failed(SpecParsingError::CannotParseEmptyString),
                i,
            ),
            ErasableType::Formatting => spec_parse_term_fragment(
                s,
                i + 1,
                sign,
                multiplied_or_divided,
            ),
            ErasableType::ScientificNotation => (
                SpecParsingResult::Failed(SpecParsingError::Unexpected(e.spec_display())),
                i,
            ),
            ErasableType::Comma => (
                SpecParsingResult::Failed(SpecParsingError::Unexpected(e.spec_display())),
                i,
            ),
            ErasableType::NamedConstant => {
                match e {
                    Erasable::Pi => (
                        SpecParsingResult::Found(
                            SpecFragment {
                                sign: sign_value,
                                fragment_magnitude: SpecMagnitude::NamedConstant {
                                    coefficient: spec_integer_as_expression(1),
                                    constant: NamedConstant::Pi,
                                },
                                angle_unit: None,
                                multiplied_or_divided: combinator,
                            },
                        ),
                        i + 1,
                    ),
                    Erasable::E => (
                        SpecParsingResult::Found(
                            SpecFragment {
                                sign: sign_value,
                                fragment_magnitude: SpecMagnitude::NamedConstant {
                                    coefficient: spec_integer_as_expression(1),
                                    constant: NamedConstant::E,
                                },
                                angle_unit: None,
                                multiplied_or_divided: combinator,
                            },
                        ),
                        i + 1,
                    ),
                    _ => (
                        SpecParsingResult::Failed(SpecParsingError::Unexpected(e.spec_display())),
                        i,
                    ),
                }
            },
            ErasableType::AngleUnit => (
                SpecParsingResult::Failed(SpecParsingError::Unexpected(e.spec_display())),
                i,
            ),
            ErasableType::Digit => {
                match spec_parse_into_int_or_decimal(s, i) {
                    (SpecParsingResult::Found(constant), j) => (
                        SpecParsingResult::Found(
                            SpecFragment {
                                fragment_magnitude: SpecMagnitude::NonNamedConstant(constant),
                                multiplied_or_divided: combinator,
                                sign: sign_value,
                                angle_unit: None,
                            },
                        ),
                        j,
                    ),
                    (SpecParsingResult::Failed(pe), j) => (SpecParsingResult::Failed(pe), j),
                    (SpecParsingResult::Absent, j) => (SpecParsingResult::Absent, j),
                }
            },
            ErasableType::DecimalPoint => {
                match spec_parse_into_int_or_decimal(s, i) {
                    (SpecParsingResult::Found(constant), j) => (
                        SpecParsingResult::Found(
                            SpecFragment {
                                fragment_magnitude: SpecMagnitude::NonNamedConstant(constant),
                                multiplied_or_divided: combinator,
                                sign: sign_value,
                                angle_unit: None,
                            },
                        ),
                        j,
                    ),
                    (SpecParsingResult::Failed(pe), j) => (SpecParsingResult::Failed(pe), j),
                    (SpecParsingResult::Absent, j) => (SpecParsingResult::Absent, j),
                }
            },
            ErasableType::ArithmeticOperator => {
                let ((sign2, multiplied_or_divided2), j) = spec_parse_term_fragment_operators(s, i);
                if i < j <= s.len() {
                    spec_parse_term_fragment(s, j, sign2, multiplied_or_divided2)
                } else {
                    (SpecParsingResult::Absent, j)
                }
            },
            ErasableType::FractionDivider => (
                SpecParsingResult::Failed(SpecParsingError::Unexpected(e.spec_display())),
                i,
            ),
            ErasableType::ExponentPlaceholder => (
                SpecParsingResult::Failed(SpecParsingError::Unexpected(e.spec_display())),
                i,
            ),
            ErasableType::OpeningBracket => {
                match spec_parse_term_fragment_brackets(s, i) {
                    (SpecParsingResult::Found(interior), j) => (
                        SpecParsingResult::Found(
                            SpecFragment {
                                sign: sign_value,
                                fragment_magnitude: SpecMagnitude::Bracket(interior),
                                angle_unit: None,
                                multiplied_or_divided: combinator,
                            },
                        ),
                        j,
                    ),
                    (SpecParsingResult::Failed(pe), j) => (SpecParsingResult::Failed(pe), j),
                    (SpecParsingResult::Absent, j) => (SpecParsingResult::Absent, j),
                }
            },
            ErasableType::FunctionName => {
                match spec_parse_function(s, i) {
                    (SpecParsingResult::Found(magnitude), j) => (
                        SpecParsingResult::Found(
                            SpecFragment {
                                sign: sign_value,
                                fragment_magnitude: magnitude,
                                multiplied_or_divided: combinator,
                                angle_unit: None,
                            },
                        ),
                        j,
                    ),
                    (SpecParsingResult::Failed(pe), j) => (SpecParsingResult::Failed(pe), j),
                    (SpecParsingResult::Absent, j) => (SpecParsingResult::Absent, j),
                }
            },
        };
        match base {
            (SpecParsingResult::Found(fragment), j) => if i < j <= s.len() {
                spec_parse_fragment_suffixes(s, j, fragment, 2)
            } else {
                (SpecParsingResult::Absent, j)
            },
            (SpecParsingResult::Absent, j) => (SpecParsingResult::Absent, j),
            (SpecParsingResult::Failed(pe), j) => (SpecParsingResult::Failed(pe), j),
        }
    }
}

/// Mirror of the fragment loop of `parse_term`: keep taking fragments while
/// a peeked fragment joins the chain with `Multiplied` or `Divided`; a
/// peeked `Neither` marks the next term and is left unconsumed.
#[verifier::opaque]
pub open spec fn spec_parse_term_rest(
    s: Seq<Erasable>,
    i: int,
    fragments: Seq<SpecFragment>,
) -> (SpecParsingResult<SpecTerm>, int)
    decreases s.len() - i, 3nat, 0nat,
{
    match spec_parse_term_fragment(s, i, None, None) {
        (SpecParsingResult::Failed(pe), _) => (SpecParsingResult::Failed(pe), i),
        (SpecParsingResult::Absent, _) => (SpecParsingResult::Found(SpecTerm { fragments }), i),
        (SpecParsingResult::Found(fragment), j) => if fragment.multiplied_or_divided
            is Neither {
            (SpecParsingResult::Found(SpecTerm { fragments }), i)
        } else if i < j <= s.len() {
            spec_parse_term_rest(s, j, fragments.push(fragment))
        } else {
            (SpecParsingResult::Absent, j)
        },
    }
}

/// Mirror of `parse_term`: the first fragment must open a new term (its
/// combinator is `Neither`); the rest of the chain follows.
#[verifier::opaque]
pub open spec fn spec_parse_term(s: Seq<Erasable>, i: int) -> (SpecParsingResult<SpecTerm>, int)
    decreases s.len() - i, 3nat, 1nat,
{
    match spec_parse_term_fragment(s, i, None, None) {
        (SpecParsingResult::Failed(pe), _) => (SpecParsingResult::Failed(pe), i),
        (SpecParsingResult::Absent, _) => (SpecParsingResult::Absent, i),
        (SpecParsingResult::Found(fragment), j) => if fragment.multiplied_or_divided
            is Neither {
            if i < j <= s.len() {
                spec_parse_term_rest(s, j, seq![fragment])
            } else {
                (SpecParsingResult::Absent, j)
            }
        } else {
            (
                SpecParsingResult::Failed(
                    SpecParsingError::Custom("expected the start of a new term"@),
                ),
                i,
            )
        },
    }
}

/// Mirror of the term loop of `parse_into_expression`: parse terms until
/// the stream is exhausted.
#[verifier::opaque]
pub open spec fn spec_parse_terms(s: Seq<Erasable>, i: int) -> (
    Result<SpecExpression, SpecParsingError>,
    int,
)
    decreases s.len() - i, 4nat, 0nat,
{
    match spec_parse_term(s, i) {
        (SpecParsingResult::Failed(pe), _) => (Err(pe), i),
        (SpecParsingResult::Absent, _) => (Ok(Seq::empty()), i),
        (SpecParsingResult::Found(term), j) => if i < j <= s.len() {
            match spec_parse_terms(s, j) {
                (Ok(rest), k) => (Ok(seq![term] + rest), k),
                (Err(pe), k) => (Err(pe), k),
            }
        } else {
            (Err(SpecParsingError::Custom("expected the start of a new term"@)), j)
        },
    }
}

/// The parser's contract: what parsing a whole token sequence yields. The
/// sequence is prefixed with a synthetic `+` so the first real fragment is
/// classified as the start of a term.
pub open spec fn spec_parse_into_expression(tokens: Seq<Erasable>) -> Result<
    SpecExpression,
    SpecParsingError,
>
    decreases tokens.len() + 1, 5nat, 0nat,
{
    spec_parse_terms(seq![Erasable::PlusSign] + tokens, 0).0
}

/// An executable step outcome agrees with its model, for constants.
pub open spec fn constant_result_matches(
    r: ParsingResult<UnnamedConstant>,
    v: SpecParsingResult<SpecConstant>,
) -> bool {
    match (r, v) {
        (ParsingResult::Found(c), SpecParsingResult::Found(sc)) => c.model() == sc,
        (ParsingResult::Absent, SpecParsingResult::Absent) => true,
        (ParsingResult::Failed(e), SpecParsingResult::Failed(se)) => e@ == se,
        _ => false,
    }
}

/// An executable step outcome agrees with its model, for fragments.
pub open spec fn fragment_result_matches(
    r: ParsingResult<TermFragment>,
    v: SpecParsingResult<SpecFragment>,
) -> bool {
    match (r, v) {
        (ParsingResult::Found(f), SpecParsingResult::Found(sf)) => f.model() == sf,
        (ParsingResult::Absent, SpecParsingResult::Absent) => true,
        (ParsingResult::Failed(e), SpecParsingResult::Failed(se)) => e@ == se,
        _ => false,
    }
}

/// An executable step outcome agrees with its model, for magnitudes.
pub open spec fn magnitude_result_matches(
    r: ParsingResult<TermFragmentMagnitude>,
    v: SpecParsingResult<SpecMagnitude>,
) -> bool {
    match (r, v) {
        (ParsingResult::Found(m), SpecParsingResult::Found(sm)) => m.model() == sm,
        (ParsingResult::Absent, SpecParsingResult::Absent) => true,
        (ParsingResult::Failed(e), SpecParsingResult::Failed(se)) => e@ == se,
        _ => false,
    }
}

/// An executable step outcome agrees with its model, for terms.
pub open spec fn term_result_matches(
    r: ParsingResult<Term>,
    v: SpecParsingResult<SpecTerm>,
) -> bool {
    match (r, v) {
        (ParsingResult::Found(t), SpecParsingResult::Found(st)) => t.model() == st,
        (ParsingResult::Absent, SpecParsingResult::Absent) => true,
        (ParsingResult::Failed(e), SpecParsingResult::Failed(se)) => e@ == se,
        _ => false,
    }
}

/// An executable step outcome agrees with its model, for whole expressions.
pub open spec fn expression_result_matches(
    r: ParsingResult<Expression>,
    v: SpecParsingResult<SpecExpression>,
) -> bool {
    match (r, v) {
        (ParsingResult::Found(e), SpecParsingResult::Found(se)) => expression_model(e@) == se,
        (ParsingResult::Absent, SpecParsingResult::Absent) => true,
        (ParsingResult::Failed(e), SpecParsingResult::Failed(se)) => e@ == se,
        _ => false,
    }
}

/// An executable step outcome agrees with its model, for collected tokens.
pub open spec fn tokens_result_matches(
    r: ParsingResult<Vec<Erasable>>,
    v: SpecParsingResult<Seq<Erasable>>,
) -> bool {
    match (r, v) {
        (ParsingResult::Found(ts), SpecParsingResult::Found(sts)) => ts@ == sts,
        (ParsingResult::Absent, SpecParsingResult::Absent) => true,
        (ParsingResult::Failed(e), SpecParsingResult::Failed(se)) => e@ == se,
        _ => false,
    }
}

/// An executable step outcome agrees with its model, for collected argument
/// tokens together with the end-of-list flag.
pub open spec fn argument_tokens_result_matches(
    r: ParsingResult<(Vec<Erasable>, bool)>,
    v: SpecParsingResult<(Seq<Erasable>, bool)>,
) -> bool {
    match (r, v) {
        (ParsingResult::Found(ts), SpecParsingResult::Found(sts)) => ts.0@ == sts.0 && ts.1
            == sts.1,
        (ParsingResult::Absent, SpecParsingResult::Absent) => true,
        (ParsingResult::Failed(e), SpecParsingResult::Failed(se)) => e@ == se,
        _ => false,
    }
}

/// An executable step outcome agrees with its model, for argument lists.
pub open spec fn arguments_result_matches(
    r: ParsingResult<Vec<Expression>>,
    v: SpecParsingResult<Seq<SpecExpression>>,
) -> bool {
    match (r, v) {
        (ParsingResult::Found(es), SpecParsingResult::Found(ses)) => expressions_model(es@) == ses,
        (ParsingResult::Absent, SpecParsingResult::Absent) => true,
        (ParsingResult::Failed(e), SpecParsingResult::Failed(se)) => e@ == se,
        _ => false,
    }
}

/// The expression `n`: one term of one positive, multiplied, unit-free
/// integer fragment.
pub fn integer_as_expression(integer: UnsignedValuePrecision) -> (e: Expression)
    ensures
        expression_model(e@) == spec_integer_as_expression(integer),
{
    let fragment = TermFragment {
        fragment_magnitude: TermFragmentMagnitude::NonNamedConstant(
            UnnamedConstant::Integer(integer),
        ),
        multiplied_or_divided: MultipliedOrDivided::Multiplied,
        sign: Sign::Positive,
        angle_unit: None,
    };
    let mut fragments: Vec<TermFragment> = Vec::new();
    fragments.push(fragment);
    let term = Term { fragments };
    let mut e: Expression = Vec::new();
    e.push(term);
    proof {
        reveal_with_fuel(expression_model, 2);
        reveal_with_fuel(crate::expression::fragments_model, 2);
        assert(e@.subrange(1, 1) =~= Seq::<Term>::empty());
        assert(e@[0].fragments@.subrange(1, 1) =~= Seq::<TermFragment>::empty());
        assert(e@.len() == 1);
        assert(e@[0] == term);
        assert(expression_model(e@) == seq![e@[0].model()] + expression_model(e@.subrange(1, 1)));
        assert(expression_model(e@.subrange(1, 1)) =~= Seq::<SpecTerm>::empty());
        assert(expression_model(e@) =~= seq![e@[0].model()]);
        assert(fragments_model(e@[0].fragments@) =~= seq![fragment.model()]);
        assert(e@[0].model().fragments =~= spec_integer_as_expression(integer)[0].fragments);
        assert(expression_model(e@) =~~= spec_integer_as_expression(integer));
    }
    e
}

/// A prefix of a digit string is worth no more than the whole string.
proof fn lemma_digits_val_prefix_le(s: Seq<char>, k: int)
    requires
        0 <= k <= s.len(),
    ensures
        digits_val(s.subrange(0, k)) <= digits_val(s),
    decreases s.len() - k,
{
    if k == s.len() {
        assert(s.subrange(0, k) =~= s);
    } else {
        let shorter = s.subrange(0, k);
        let longer = s.subrange(0, k + 1);
        assert(longer.subrange(0, k) =~= shorter);
        assert(digits_val(longer) == digits_val(shorter) * 10 + char_digit(longer[k]));
        assert(digits_val(shorter) <= digits_val(shorter) * 10) by (nonlinear_arith);
        lemma_digits_val_prefix_le(s, k + 1);
    }
}

/// Reads the base-ten value of a digit string, if it fits the unsigned
/// precision.
pub fn u64_from_digits(digits: &String) -> (r: Option<u64>)
    requires
        all_digits(digits@),
    ensures
        match r {
            Some(v) => digits_val(digits@) <= u64::MAX && v == digits_val(digits@),
            None => digits_val(digits@) > u64::MAX,
        },
{
    let n = digits.as_str().unicode_len();
    let mut value: u64 = 0;
    let mut i: usize = 0;
    proof {
        assert(digits@.subrange(0, 0) =~= Seq::<char>::empty());
    }
    while i < n
        invariant
            0 <= i <= n == digits@.len(),
            all_digits(digits@),
            value == digits_val(digits@.subrange(0, i as int)),
        decreases n - i,
    {
        let c = digits.as_str().get_char(i);
        let d: u64 = (c as u32 as u64) - 48;
        let wide: u128 = (value as u128) * 10 + (d as u128);
        proof {
            let prefix = digits@.subrange(0, i as int);
            let next = digits@.subrange(0, i + 1);
            assert(next.subrange(0, i as int) =~= prefix);
            assert(digits_val(next) == digits_val(prefix) * 10 + char_digit(next[i as int]));
            assert(char_digit(digits@[i as int]) == d);
        }
        if wide > u64::MAX as u128 {
            proof {
                lemma_digits_val_prefix_le(digits@, i + 1);
            }
            return None;
        }
        value = (value * 10) + d;
        i = i + 1;
    }
    proof {
        assert(digits@.subrange(0, n as int) =~= digits@);
    }
    Some(value)
}

/// Closes a finished digit run off as an integer or decimal constant.
fn close_digit_run(seen_point: bool, before: String, after: String, i: usize) -> (r: (
    ParsingResult<UnnamedConstant>,
    usize,
))
    requires
        all_digits(before@),
    ensures
        ({
            let (sr, sj) = spec_close_digit_run(seen_point, before@, after@, i as int);
            constant_result_matches(r.0, sr) && r.1 as int == sj
        }),
{
    if seen_point {
        (
            ParsingResult::Found(
                UnnamedConstant::Decimal {
                    before_decimal_point: before,
                    after_decimal_point: after,
                },
            ),
            i,
        )
    } else if before.as_str().is_empty() {
        (
            ParsingResult::Failed(
                ParsingError::Custom(String::from_str("cannot parse integer from empty string")),
            ),
            i,
        )
    } else {
        match u64_from_digits(&before) {
            Some(v) => (ParsingResult::Found(UnnamedConstant::Integer(v)), i),
            None => (
                ParsingResult::Failed(
                    ParsingError::Custom(
                        String::from_str("number too large to fit in target type"),
                    ),
                ),
                i,
            ),
        }
    }
}

/// Accumulates a maximal run of digits, at most one decimal point and
/// interleaved formatting tokens into a numeric constant.
fn parse_digit_run(
    s: &Vec<Erasable>,
    i: usize,
    seen_point: bool,
    before: String,
    after: String,
) -> (r: (ParsingResult<UnnamedConstant>, usize))
    requires
        i <= s@.len(),
        all_digits(before@),
        all_digits(after@),
    ensures
        ({
            let (sr, sj) = spec_parse_digit_run(s@, i as int, seen_point, before@, after@);
            constant_result_matches(r.0, sr) && r.1 as int == sj && i <= r.1 <= s@.len()
        }),
    decreases s@.len() - i,
{
    reveal(spec_parse_digit_run);
    if i < s.len() {
        let e = s[i];
        match e.erasable_type() {
            ErasableType::Digit => {
                let c = e.char_code();
                proof {
                    assert('0' <= e.spec_char() <= '9');
                }
                if seen_point {
                    let mut after = after;
                    after.push(c);
                    parse_digit_run(s, i + 1, seen_point, before, after)
                } else {
                    let mut before = before;
                    before.push(c);
                    parse_digit_run(s, i + 1, seen_point, before, after)
                }
            },
            ErasableType::DecimalPoint => {
                if seen_point {
                    (ParsingResult::Failed(ParsingError::ExcessiveDecimalPoints), i)
                } else {
                    parse_digit_run(s, i + 1, true, before, after)
                }
            },
            ErasableType::Formatting => parse_digit_run(s, i + 1, seen_point, before, after),
            _ => close_digit_run(seen_point, before, after, i),
        }
    } else {
        close_digit_run(seen_point, before, after, i)
    }
}

/// Parses a maximal numeric literal at `i` into an integer or decimal
/// constant; more than one decimal point is a parse error.
pub fn parse_into_int_or_decimal(s: &Vec<Erasable>, i: usize) -> (r: (
    ParsingResult<UnnamedConstant>,
    usize,
))
    requires
        i <= s@.len(),
    ensures
        ({
            let (sr, sj) = spec_parse_into_int_or_decimal(s@, i as int);
            constant_result_matches(r.0, sr) && r.1 as int == sj && i <= r.1 <= s@.len()
        }),
{
    parse_digit_run(s, i, false, String::new(), String::new())
}

/// Consumes `+`, `-` and formatting tokens, counting the minus signs.
fn count_signs(s: &Vec<Erasable>, i: usize, negatives: usize) -> (r: (usize, usize))
    requires
        i <= s@.len(),
        negatives <= i,
    ensures
        ({
            let (n2, j) = spec_count_signs(s@, i as int, negatives as nat);
            r.0 as nat == n2 && r.1 as int == j && i <= r.1 <= s@.len() && r.0 <= r.1
        }),
    decreases s@.len() - i,
{
    reveal(spec_count_signs);
    if i < s.len() {
        let e = s[i];
        match e {
            Erasable::PlusSign => count_signs(s, i + 1, negatives),
            Erasable::NegativeSign => count_signs(s, i + 1, negatives + 1),
            _ => {
                if e.erasable_type() == ErasableType::Formatting {
                    count_signs(s, i + 1, negatives)
                } else {
                    (negatives, i)
                }
            },
        }
    } else {
        (negatives, i)
    }
}

/// Parses the leading operators of a fragment: an optional single `*` or
/// `/`, then any run of signs; the sign is the parity of the minus count.
pub fn parse_term_fragment_operators(s: &Vec<Erasable>, i: usize) -> (r: (
    (Option<Sign>, Option<MultipliedOrDivided>),
    usize,
))
    requires
        i <= s@.len(),
    ensures
        ({
            let (so, j) = spec_parse_term_fragment_operators(s@, i as int);
            r.0 == so && r.1 as int == j && i <= r.1 <= s@.len()
        }),
{
    reveal(spec_parse_term_fragment_operators);
    let (multiplied_or_divided, j) = if i < s.len() {
        match s[i] {
            Erasable::MultiplicationSign => (MultipliedOrDivided::Multiplied, i + 1),
            Erasable::DivisionSign => (MultipliedOrDivided::Divided, i + 1),
            _ => (MultipliedOrDivided::Neither, i),
        }
    } else {
        (MultipliedOrDivided::Neither, i)
    };
    let (negatives, k) = count_signs(s, j, 0);
    let sign = if negatives % 2 == 0 {
        Sign::Positive
    } else {
        Sign::Negative
    };
    ((Some(sign), Some(multiplied_or_divided)), k)
}

/// Appending an expression appends its model.
proof fn lemma_expressions_model_push(es: Seq<Expression>, e: Expression)
    ensures
        expressions_model(es.push(e)) == expressions_model(es).push(expression_model(e@)),
    decreases es.len(),
{
    reveal_with_fuel(expressions_model, 2);
    if es.len() == 0 {
        assert(es.push(e).subrange(1, 1) =~= Seq::<Expression>::empty());
        assert(expressions_model(es.push(e)) =~= expressions_model(es).push(expression_model(e@)));
    } else {
        let rest = es.subrange(1, es.len() as int);
        assert(es.push(e).subrange(1, es.len() as int + 1) =~= rest.push(e));
        lemma_expressions_model_push(rest, e);
        assert(expressions_model(es.push(e)) =~= expressions_model(es).push(expression_model(e@)));
    }
}

/// The length and elements of a modelled expression sequence.
proof fn lemma_expressions_model_index(es: Seq<Expression>, k: int)
    requires
        0 <= k < es.len(),
    ensures
        expressions_model(es).len() == es.len(),
        expressions_model(es)[k] == expression_model(es[k]@),
    decreases es.len(),
{
    reveal_with_fuel(expressions_model, 2);
    let rest = es.subrange(1, es.len() as int);
    if es.len() == 1 {
        assert(rest.len() == 0);
        assert(expressions_model(rest) =~= Seq::<SpecExpression>::empty());
    } else {
        lemma_expressions_model_index(rest, if k == 0 {
            0
        } else {
            k - 1
        });
        if k > 0 {
            assert(rest[k - 1] == es[k]);
        }
    }
}

/// The expression a single fragment makes: one term of that one fragment.
fn fragment_as_expression(fragment: TermFragment) -> (e: Expression)
    ensures
        expression_model(e@) == seq![SpecTerm { fragments: seq![fragment.model()] }],
{
    let ghost fragment_model = fragment.model();
    let mut fragments: Vec<TermFragment> = Vec::new();
    fragments.push(fragment);
    let term = Term { fragments };
    let mut e: Expression = Vec::new();
    e.push(term);
    proof {
        reveal_with_fuel(expression_model, 2);
        reveal_with_fuel(fragments_model, 2);
        assert(e@.subrange(1, 1) =~= Seq::<Term>::empty());
        assert(e@[0].fragments@.subrange(1, 1) =~= Seq::<TermFragment>::empty());
        assert(expression_model(e@.subrange(1, 1)) =~= Seq::<SpecTerm>::empty());
        assert(expression_model(e@) =~= seq![e@[0].model()]);
        assert(fragments_model(e@[0].fragments@) =~= seq![fragment_model]);
        assert(expression_model(e@) =~~= seq![SpecTerm { fragments: seq![fragment_model] }]);
    }
    e
}

/// Collects the interior of a bracketed group, starting just inside the
/// opening bracket; the matching closing bracket is consumed but not kept.
fn collect_bracket_tokens(s: &Vec<Erasable>, i: usize, depth: usize, acc: Vec<Erasable>) -> (r: (
    ParsingResult<Vec<Erasable>>,
    usize,
))
    requires
        i <= s@.len(),
        1 <= depth <= i,
    ensures
        ({
            let (sr, sj) = spec_collect_bracket_tokens(s@, i as int, depth as nat, acc@);
            &&& tokens_result_matches(r.0, sr)
            &&& r.1 as int == sj
            &&& i <= r.1 <= s@.len()
            &&& (r.0 matches ParsingResult::Found(ts) ==> ts@.len() + i + 1 == acc@.len() + r.1)
        }),
    decreases s@.len() - i,
{
    reveal(spec_collect_bracket_tokens);
    if i < s.len() {
        let e = s[i];
        match e.erasable_type() {
            ErasableType::OpeningBracket => {
                let mut acc = acc;
                acc.push(e);
                collect_bracket_tokens(s, i + 1, depth + 1, acc)
            },
            ErasableType::ClosingBracket => {
                if depth == 1 {
                    (ParsingResult::Found(acc), i + 1)
                } else {
                    let mut acc = acc;
                    acc.push(e);
                    collect_bracket_tokens(s, i + 1, depth - 1, acc)
                }
            },
            _ => {
                let mut acc = acc;
                acc.push(e);
                collect_bracket_tokens(s, i + 1, depth, acc)
            },
        }
    } else {
        (ParsingResult::Failed(ParsingError::MismatchedBrackets), i)
    }
}

/// Parses a bracketed group: the opening bracket, the interior up to the
/// matching closing bracket, and the interior as a complete expression.
pub fn parse_term_fragment_brackets(s: &Vec<Erasable>, i: usize) -> (r: (
    ParsingResult<Expression>,
    usize,
))
    requires
        i <= s@.len(),
    ensures
        ({
            let (sr, sj) = spec_parse_term_fragment_brackets(s@, i as int);
            &&& expression_result_matches(r.0, sr)
            &&& r.1 as int == sj
            &&& i <= r.1 <= s@.len()
            &&& (r.0 is Found ==> r.1 > i)
        }),
    decreases s@.len() - i, 1nat, 0nat,
{
    reveal(spec_parse_term_fragment_brackets);
    if i >= s.len() {
        return (ParsingResult::Failed(ParsingError::EndOfInput), i);
    }
    let e = s[i];
    if e.erasable_type() != ErasableType::OpeningBracket {
        return (
            ParsingResult::Failed(
                ParsingError::ExpectedButFound {
                    expected: String::from_str("opening bracket"),
                    found: String::from_str(e.display_str()),
                },
            ),
            i + 1,
        );
    }
    let (collected, j) = collect_bracket_tokens(s, i + 1, 1, Vec::new());
    match collected {
        ParsingResult::Found(inner) => {
            match parse_into_expression(&inner) {
                Ok(expression) => (ParsingResult::Found(expression), j),
                Err(pe) => {
                    let message = pe.to_display_string();
                    (ParsingResult::Failed(ParsingError::Custom(message)), j)
                },
            }
        },
        ParsingResult::Failed(pe) => (ParsingResult::Failed(pe), j),
        ParsingResult::Absent => (ParsingResult::Absent, j),
    }
}

/// Collects the tokens of one function argument, starting just inside the
/// argument list; a top-level comma or the closing bracket of the list ends
/// the argument (the flag is true for the closing bracket).
fn collect_argument_tokens(s: &Vec<Erasable>, i: usize, depth: usize, acc: Vec<Erasable>) -> (r: (
    ParsingResult<(Vec<Erasable>, bool)>,
    usize,
))
    requires
        i <= s@.len(),
        1 <= depth <= i,
    ensures
        ({
            let (sr, sj) = spec_collect_argument_tokens(s@, i as int, depth as nat, acc@);
            &&& argument_tokens_result_matches(r.0, sr)
            &&& r.1 as int == sj
            &&& i <= r.1 <= s@.len()
            &&& (r.0 matches ParsingResult::Found(ts) ==> ts.0@.len() + i + 1 == acc@.len() + r.1)
        }),
    decreases s@.len() - i,
{
    reveal(spec_collect_argument_tokens);
    if i < s.len() {
        let e = s[i];
        match e.erasable_type() {
            ErasableType::OpeningBracket => {
                let mut acc = acc;
                acc.push(e);
                collect_argument_tokens(s, i + 1, depth + 1, acc)
            },
            ErasableType::ClosingBracket => {
                if depth == 1 {
                    (ParsingResult::Found((acc, true)), i + 1)
                } else {
                    let mut acc = acc;
                    acc.push(e);
                    collect_argument_tokens(s, i + 1, depth - 1, acc)
                }
            },
            ErasableType::Comma => {
                if depth == 1 {
                    (ParsingResult::Found((acc, false)), i + 1)
                } else {
                    let mut acc = acc;
                    acc.push(e);
                    collect_argument_tokens(s, i + 1, depth, acc)
                }
            },
            _ => {
                let mut acc = acc;
                acc.push(e);
                collect_argument_tokens(s, i + 1, depth, acc)
            },
        }
    } else {
        (ParsingResult::Failed(ParsingError::MismatchedBrackets), i)
    }
}

/// Splits the interior of an argument list by top-level commas, parsing
/// each argument as it is closed off.
fn parse_argument_list(s: &Vec<Erasable>, i: usize, acc: Vec<Expression>) -> (r: (
    ParsingResult<Vec<Expression>>,
    usize,
))
    requires
        1 <= i <= s@.len(),
    ensures
        ({
            let (sr, sj) = spec_parse_argument_list(s@, i as int, expressions_model(acc@));
            &&& arguments_result_matches(r.0, sr)
            &&& r.1 as int == sj
            &&& i <= r.1 <= s@.len()
        }),
    decreases s@.len() - i, 6nat, 0nat,
{
    reveal(spec_parse_argument_list);
    let (collected, j) = collect_argument_tokens(s, i, 1, Vec::new());
    match collected {
        ParsingResult::Found((tokens, ended_by_close)) => {
            match parse_into_expression(&tokens) {
                Ok(argument) => {
                    let ghost argument_model = expression_model(argument@);
                    let mut acc = acc;
                    proof {
                        lemma_expressions_model_push(acc@, argument);
                    }
                    acc.push(argument);
                    if ended_by_close {
                        (ParsingResult::Found(acc), j)
                    } else {
                        parse_argument_list(s, j, acc)
                    }
                },
                Err(pe) => {
                    let message = pe.to_display_string();
                    (ParsingResult::Failed(ParsingError::Custom(message)), j)
                },
            }
        },
        ParsingResult::Failed(pe) => (ParsingResult::Failed(pe), j),
        ParsingResult::Absent => (ParsingResult::Absent, j),
    }
}

/// Parses a function's argument list: its opening bracket, then the
/// comma-separated arguments up to the matching closing bracket.
pub fn parse_function_argument_list(s: &Vec<Erasable>, i: usize) -> (r: (
    ParsingResult<Vec<Expression>>,
    usize,
))
    requires
        i <= s@.len(),
    ensures
        ({
            let (sr, sj) = spec_parse_function_argument_list(s@, i as int);
            &&& arguments_result_matches(r.0, sr)
            &&& r.1 as int == sj
            &&& i <= r.1 <= s@.len()
        }),
    decreases s@.len() - i, 7nat, 0nat,
{
    reveal(spec_parse_function_argument_list);
    reveal(spec_parse_argument_list);
    if i >= s.len() {
        return (ParsingResult::Failed(ParsingError::EndOfInput), i);
    }
    if s[i].erasable_type() != ErasableType::OpeningBracket {
        return (
            ParsingResult::Failed(ParsingError::Unexpected(String::from_str("opening bracket"))),
            i + 1,
        );
    }
    proof {
        assert(expressions_model(Seq::<Expression>::empty()) =~= Seq::<SpecExpression>::empty());
    }
    parse_argument_list(s, i + 1, Vec::new())
}

/// Parses a function application: the function-name token, then its
/// argument list; one argument for every function but `NthRoot`, which
/// takes two.
pub fn parse_function(s: &Vec<Erasable>, i: usize) -> (r: (
    ParsingResult<TermFragmentMagnitude>,
    usize,
))
    requires
        i <= s@.len(),
    ensures
        ({
            let (sr, sj) = spec_parse_function(s@, i as int);
            &&& magnitude_result_matches(r.0, sr)
            &&& r.1 as int == sj
            &&& i <= r.1 <= s@.len()
            &&& (r.0 is Found ==> r.1 > i)
        }),
    decreases s@.len() - i, 1nat, 0nat,
{
    reveal(spec_parse_function);
    reveal(spec_parse_function_argument_list);
    if i >= s.len() {
        return (ParsingResult::Failed(ParsingError::EndOfInput), i);
    }
    let name = s[i];
    let (listed, j) = parse_function_argument_list(s, i + 1);
    match listed {
        ParsingResult::Found(arguments) => {
            let ghost arguments0 = arguments@;
            if arguments.len() < 1 {
                return (ParsingResult::Failed(ParsingError::EndOfInput), j);
            }
            proof {
                lemma_expressions_model_index(arguments0, 0);
            }
            let mut arguments = arguments;
            let first = arguments.remove(0);
            match name {
                Erasable::Absolute => (
                    ParsingResult::Found(
                        TermFragmentMagnitude::Function(Function::Absolute(first)),
                    ),
                    j,
                ),
                Erasable::Sin => (
                    ParsingResult::Found(TermFragmentMagnitude::Function(Function::Sin(first))),
                    j,
                ),
                Erasable::Cos => (
                    ParsingResult::Found(TermFragmentMagnitude::Function(Function::Cos(first))),
                    j,
                ),
                Erasable::Tan => (
                    ParsingResult::Found(TermFragmentMagnitude::Function(Function::Tan(first))),
                    j,
                ),
                Erasable::Arcsin => (
                    ParsingResult::Found(TermFragmentMagnitude::Function(Function::Arcsin(first))),
                    j,
                ),
                Erasable::Arccos => (
                    ParsingResult::Found(TermFragmentMagnitude::Function(Function::Arccos(first))),
                    j,
                ),
                Erasable::Arctan => (
                    ParsingResult::Found(TermFragmentMagnitude::Function(Function::Arctan(first))),
                    j,
                ),
                Erasable::NthRoot => {
                    if arguments.len() < 1 {
                        (ParsingResult::Failed(ParsingError::EndOfInput), j)
                    } else {
                        proof {
                            lemma_expressions_model_index(arguments0, 1);
                            assert(arguments0.remove(0)[0] == arguments0[1]);
                        }
                        let second = arguments.remove(0);
                        (
                            ParsingResult::Found(
                                TermFragmentMagnitude::Function(Function::NthRoot(first, second)),
                            ),
                            j,
                        )
                    }
                },
                _ => (
                    ParsingResult::Failed(
                        ParsingError::ExpectedButFound {
                            expected: String::from_str("function name"),
                            found: String::from_str(name.display_str()),
                        },
                    ),
                    j,
                ),
            }
        },
        ParsingResult::Failed(pe) => (ParsingResult::Failed(pe), j),
        ParsingResult::Absent => (ParsingResult::Absent, j),
    }
}

/// Scans a fragment's suffixes: up to two trailing annotations, an exponent
/// (which rewraps the fragment as a power with a positive sign) and an
/// angle-unit tag.
fn parse_fragment_suffixes(s: &Vec<Erasable>, i: usize, fragment: TermFragment, rounds: usize) -> (r: (
    ParsingResult<TermFragment>,
    usize,
))
    requires
        i <= s@.len(),
    ensures
        ({
            let (sr, sj) = spec_parse_fragment_suffixes(s@, i as int, fragment.model(), rounds as nat);
            &&& fragment_result_matches(r.0, sr)
            &&& r.1 as int == sj
            &&& i <= r.1 <= s@.len()
        }),
    decreases s@.len() - i, 2nat, rounds,
{
    reveal(spec_parse_fragment_suffixes);
    reveal(spec_parse_term_fragment);
    if rounds == 0 {
        return (ParsingResult::Found(fragment), i);
    }
    if i >= s.len() {
        return (ParsingResult::Found(fragment), i);
    }
    match s[i] {
        Erasable::ExponentPlaceholder => {
            let (exponent_result, k) = parse_term_fragment(s, i + 1, None, None);
            match exponent_result {
                ParsingResult::Found(exponent) => {
                    let combinator = fragment.multiplied_or_divided;
                    let angle_unit = fragment.angle_unit;
                    let base = fragment_as_expression(fragment);
                    let exponent = fragment_as_expression(exponent);
                    let rewrapped = TermFragment {
                        fragment_magnitude: TermFragmentMagnitude::NonNamedConstant(
                            UnnamedConstant::Power { base, exponent },
                        ),
                        sign: Sign::Positive,
                        multiplied_or_divided: combinator,
                        angle_unit,
                    };
                    parse_fragment_suffixes(s, k, rewrapped, rounds - 1)
                },
                ParsingResult::Absent => (ParsingResult::Absent, k),
                ParsingResult::Failed(pe) => (ParsingResult::Failed(pe), k),
            }
        },
        Erasable::Degrees => {
            let tagged = TermFragment {
                sign: fragment.sign,
                fragment_magnitude: fragment.fragment_magnitude,
                multiplied_or_divided: fragment.multiplied_or_divided,
                angle_unit: Some(AngleUnit::Degrees),
            };
            parse_fragment_suffixes(s, i + 1, tagged, rounds - 1)
        },
        Erasable::Radians => {
            let tagged = TermFragment {
                sign: fragment.sign,
                fragment_magnitude: fragment.fragment_magnitude,
                multiplied_or_divided: fragment.multiplied_or_divided,
                angle_unit: Some(AngleUnit::Radians),
            };
            parse_fragment_suffixes(s, i + 1, tagged, rounds - 1)
        },
        _ => (ParsingResult::Found(fragment), i),
    }
}

/// Parses one term fragment: leading operators, a base chosen by the
/// category of the next token, and up to two suffixes.
pub fn parse_term_fragment(
    s: &Vec<Erasable>,
    i: usize,
    sign: Option<Sign>,
    multiplied_or_divided: Option<MultipliedOrDivided>,
) -> (r: (ParsingResult<TermFragment>, usize))
    requires
        i <= s@.len(),
    ensures
        ({
            let (sr, sj) = spec_parse_term_fragment(s@, i as int, sign, multiplied_or_divided);
            &&& fragment_result_matches(r.0, sr)
            &&& r.1 as int == sj
            &&& i <= r.1 <= s@.len()
            &&& (r.0 is Found ==> r.1 > i)
        }),
    decreases s@.len() - i, 2nat, 0nat,
{
    reveal(spec_parse_term_fragment);
    reveal(spec_parse_digit_run);
    reveal(spec_parse_term_fragment_operators);
    reveal(spec_parse_term_fragment_brackets);
    reveal(spec_parse_function);
    reveal(spec_parse_fragment_suffixes);
    if i >= s.len() {
        return (ParsingResult::Absent, i);
    }
    let e = s[i];
    let sign_value = match sign {
        Some(sg) => sg,
        None => Sign::Positive,
    };
    let combinator = match multiplied_or_divided {
        Some(m) => m,
        None => MultipliedOrDivided::Multiplied,
    };
    let base: (ParsingResult<TermFragment>, usize) = match e.erasable_type() {
        ErasableType::ClosingBracket => (
            ParsingResult::Failed(ParsingError::CannotParseEmptyString),
            i,
        ),
        ErasableType::Formatting => parse_term_fragment(s, i + 1, sign, multiplied_or_divided),
        ErasableType::ScientificNotation => (
            ParsingResult::Failed(ParsingError::Unexpected(String::from_str(e.display_str()))),
            i,
        ),
        ErasableType::Comma => (
            ParsingResult::Failed(ParsingError::Unexpected(String::from_str(e.display_str()))),
            i,
        ),
        ErasableType::NamedConstant => {
            match e {
                Erasable::Pi => (
                    ParsingResult::Found(
                        TermFragment {
                            sign: sign_value,
                            fragment_magnitude: TermFragmentMagnitude::NamedConstant {
                                coefficient: integer_as_expression(1),
                                constant: NamedConstant::Pi,
                            },
                            angle_unit: None,
                            multiplied_or_divided: combinator,
                        },
                    ),
                    i + 1,
                ),
                Erasable::E => (
                    ParsingResult::Found(
                        TermFragment {
                            sign: sign_value,
                            fragment_magnitude: TermFragmentMagnitude::NamedConstant {
                                coefficient: integer_as_expression(1),
                                constant: NamedConstant::E,
                            },
                            angle_unit: None,
                            multiplied_or_divided: combinator,
                        },
                    ),
                    i + 1,
                ),
                _ => (
                    ParsingResult::Failed(
                        ParsingError::Unexpected(String::from_str(e.display_str())),
                    ),
                    i,
                ),
            }
        },
        ErasableType::AngleUnit => (
            ParsingResult::Failed(ParsingError::Unexpected(String::from_str(e.display_str()))),
            i,
        ),
        ErasableType::Digit | ErasableType::DecimalPoint => {
            let (constant_result, j) = parse_into_int_or_decimal(s, i);
            match constant_result {
                ParsingResult::Found(constant) => (
                    ParsingResult::Found(
                        TermFragment {
                            fragment_magnitude: TermFragmentMagnitude::NonNamedConstant(constant),
                            multiplied_or_divided: combinator,
                            sign: sign_value,
                            angle_unit: None,
                        },
                    ),
                    j,
                ),
                ParsingResult::Failed(pe) => (ParsingResult::Failed(pe), j),
                ParsingResult::Absent => (ParsingResult::Absent, j),
            }
        },
        ErasableType::ArithmeticOperator => {
            let (operators, j) = parse_term_fragment_operators(s, i);
            let (sign2, multiplied_or_divided2) = operators;
            if j > i {
                parse_term_fragment(s, j, sign2, multiplied_or_divided2)
            } else {
                (ParsingResult::Absent, j)
            }
        },
        ErasableType::FractionDivider => (
            ParsingResult::Failed(ParsingError::Unexpected(String::from_str(e.display_str()))),
            i,
        ),
        ErasableType::ExponentPlaceholder => (
            ParsingResult::Failed(ParsingError::Unexpected(String::from_str(e.display_str()))),
            i,
        ),
        ErasableType::OpeningBracket => {
            let (interior_result, j) = parse_term_fragment_brackets(s, i);
            match interior_result {
                ParsingResult::Found(interior) => (
                    ParsingResult::Found(
                        TermFragment {
                            sign: sign_value,
                            fragment_magnitude: TermFragmentMagnitude::Bracket(interior),
                            angle_unit: None,
                            multiplied_or_divided: combinator,
                        },
                    ),
                    j,
                ),
                ParsingResult::Failed(pe) => (ParsingResult::Failed(pe), j),
                ParsingResult::Absent => (ParsingResult::Absent, j),
            }
        },
        ErasableType::FunctionName => {
            let (magnitude_result, j) = parse_function(s, i);
            match magnitude_result {
                ParsingResult::Found(magnitude) => (
                    ParsingResult::Found(
                        TermFragment {
                            sign: sign_value,
                            fragment_magnitude: magnitude,
                            multiplied_or_divided: combinator,
                            angle_unit: None,
                        },
                    ),
                    j,
                ),
                ParsingResult::Failed(pe) => (ParsingResult::Failed(pe), j),
                ParsingResult::Absent => (ParsingResult::Absent, j),
            }
        },
    };
    match base {
        (ParsingResult::Found(fragment), j) => {
            if j > i {
                parse_fragment_suffixes(s, j, fragment, 2)
            } else {
                (ParsingResult::Absent, j)
            }
        },
        (ParsingResult::Absent, j) => (ParsingResult::Absent, j),
        (ParsingResult::Failed(pe), j) => (ParsingResult::Failed(pe), j),
    }
}

/// Parses the next fragment without committing the cursor: the caller keeps
/// its own position and decides from the result whether to consume.
pub fn peek_next_term_fragment(s: &Vec<Erasable>, i: usize) -> (r: (
    ParsingResult<TermFragment>,
    usize,
))
    requires
        i <= s@.len(),
    ensures
        ({
            let (sr, sj) = spec_parse_term_fragment(s@, i as int, None, None);
            &&& fragment_result_matches(r.0, sr)
            &&& r.1 as int == sj
            &&& i <= r.1 <= s@.len()
            &&& (r.0 is Found ==> r.1 > i)
        }),
    decreases s@.len() - i, 2nat, 1nat,
{
    parse_term_fragment(s, i, None, None)
}

/// Parses the remaining fragments of a term after its first one.
fn parse_term_rest(s: &Vec<Erasable>, i: usize, fragments: Vec<TermFragment>) -> (r: (
    ParsingResult<Term>,
    usize,
))
    requires
        i <= s@.len(),
    ensures
        ({
            let (sr, sj) = spec_parse_term_rest(s@, i as int, fragments_model(fragments@));
            &&& term_result_matches(r.0, sr)
            &&& r.1 as int == sj
            &&& i <= r.1 <= s@.len()
        }),
    decreases s@.len() - i, 3nat, 0nat,
{
    reveal(spec_parse_term_rest);
    reveal(spec_parse_term_fragment);
    let (peeked, j) = peek_next_term_fragment(s, i);
    match peeked {
        ParsingResult::Failed(pe) => (ParsingResult::Failed(pe), i),
        ParsingResult::Absent => (ParsingResult::Found(Term { fragments }), i),
        ParsingResult::Found(fragment) => {
            if fragment.multiplied_or_divided == MultipliedOrDivided::Neither {
                (ParsingResult::Found(Term { fragments }), i)
            } else if j > i {
                proof {
                    lemma_fragments_model_push(fragments@, fragment);
                }
                let mut fragments = fragments;
                fragments.push(fragment);
                parse_term_rest(s, j, fragments)
            } else {
                (ParsingResult::Absent, j)
            }
        },
    }
}

/// Parses one term: the first fragment must open a new term (its combinator
/// is `Neither`), then the rest of the product/quotient chain follows.
pub fn parse_term(s: &Vec<Erasable>, i: usize) -> (r: (ParsingResult<Term>, usize))
    requires
        i <= s@.len(),
    ensures
        ({
            let (sr, sj) = spec_parse_term(s@, i as int);
            &&& term_result_matches(r.0, sr)
            &&& r.1 as int == sj
            &&& i <= r.1 <= s@.len()
            &&& (r.0 is Found ==> r.1 > i)
        }),
    decreases s@.len() - i, 3nat, 1nat,
{
    reveal(spec_parse_term);
    reveal(spec_parse_term_fragment);
    reveal(spec_parse_term_rest);
    let (peeked, j) = peek_next_term_fragment(s, i);
    match peeked {
        ParsingResult::Failed(pe) => (ParsingResult::Failed(pe), i),
        ParsingResult::Absent => (ParsingResult::Absent, i),
        ParsingResult::Found(fragment) => {
            if fragment.multiplied_or_divided == MultipliedOrDivided::Neither {
                let ghost fragment_model = fragment.model();
                let mut fragments: Vec<TermFragment> = Vec::new();
                fragments.push(fragment);
                proof {
                    assert(fragments@.subrange(1, 1) =~= Seq::<TermFragment>::empty());
                    reveal_with_fuel(fragments_model, 2);
                    assert(fragments_model(fragments@) =~= seq![fragment_model]);
                }
                if j > i {
                    parse_term_rest(s, j, fragments)
                } else {
                    (ParsingResult::Absent, j)
                }
            } else {
                (
                    ParsingResult::Failed(
                        ParsingError::Custom(String::from_str("expected the start of a new term")),
                    ),
                    i,
                )
            }
        },
    }
}

/// Parses a run of terms until the token stream is exhausted.
fn parse_terms(s: &Vec<Erasable>, i: usize) -> (r: (Result<Expression, ParsingError>, usize))
    requires
        i <= s@.len(),
    ensures
        ({
            let (sr, sj) = spec_parse_terms(s@, i as int);
            &&& (match (r.0, sr) {
                (Ok(e), Ok(se)) => expression_model(e@) == se,
                (Err(pe), Err(spe)) => pe@ == spe,
                _ => false,
            })
            &&& r.1 as int == sj
            &&& i <= r.1 <= s@.len()
        }),
    decreases s@.len() - i, 4nat, 0nat,
{
    reveal(spec_parse_terms);
    reveal(spec_parse_term);
    let (term_result, j) = parse_term(s, i);
    match term_result {
        ParsingResult::Failed(pe) => (Err(pe), i),
        ParsingResult::Absent => {
            proof {
                assert(expression_model(Seq::<Term>::empty()) =~= Seq::<SpecTerm>::empty());
            }
            (Ok(Vec::new()), i)
        },
        ParsingResult::Found(term) => {
            if j <= i {
                return (
                    Err(ParsingError::Custom(String::from_str("expected the start of a new term"))),
                    j,
                );
            }
            let ghost term_model = term.model();
            let ghost term_value = term;
            let (rest, k) = parse_terms(s, j);
            match rest {
                Ok(rest_terms) => {
                    let ghost rest_seq = rest_terms@;
                    let ghost rest_model = expression_model(rest_terms@);
                    let mut rest_terms = rest_terms;
                    let mut out: Expression = Vec::new();
                    out.push(term);
                    out.append(&mut rest_terms);
                    proof {
                        assert(out@ =~= seq![term_value] + rest_seq);
                        assert(out@.subrange(1, out@.len() as int) =~= rest_seq);
                        assert(expression_model(out@) =~= seq![term_model] + rest_model);
                    }
                    (Ok(out), k)
                },
                Err(pe) => (Err(pe), k),
            }
        },
    }
}

/// Parses an ordered token sequence into an expression, or the first parse
/// error met. This is the parser's public entry point; its result is exactly
/// [`spec_parse_into_expression`] of the tokens.
pub fn parse_into_expression(tokens: &Vec<Erasable>) -> (r: Result<Expression, ParsingError>)
    ensures
        ({
            match spec_parse_into_expression(tokens@) {
                Ok(se) => r matches Ok(e) && expression_model(e@) == se,
                Err(spe) => r matches Err(pe) && pe@ == spe,
            }
        }),
    decreases tokens@.len() + 1, 5nat, 0nat,
{
    reveal(spec_parse_terms);
    let wrapped = crate::wrapped_iter::WrappedIter::wrap(tokens);
    let (r, _) = parse_terms(wrapped.tokens(), 0);
    r
}

/// The characters of the tokens from position `i` on.
pub open spec fn token_chars_from(s: Seq<Erasable>, i: int) -> Seq<char>
    decreases s.len() - i,
{
    if 0 <= i < s.len() {
        seq![s[i].spec_char()] + token_chars_from(s, i + 1)
    } else {
        Seq::empty()
    }
}

/// A digit run over digit tokens only collects exactly their characters:
/// it ends at the end of the input, as the integer they spell when that
/// fits the unsigned precision and as the overflow error otherwise.
pub proof fn lemma_digit_run_over_digits(s: Seq<Erasable>, i: int, before: Seq<char>)
    requires
        0 <= i <= s.len(),
        before.len() > 0 || i < s.len(),
        forall|k: int| i <= k < s.len() ==> (#[trigger] s[k]).spec_erasable_type() is Digit,
    ensures
        spec_parse_digit_run(s, i, false, before, Seq::empty()) == (
        if digits_val(before + token_chars_from(s, i)) <= u64::MAX {
            (
                SpecParsingResult::<SpecConstant>::Found(
                    SpecConstant::Integer(digits_val(before + token_chars_from(s, i)) as u64),
                ),
                s.len() as int,
            )
        } else {
            (
                SpecParsingResult::<SpecConstant>::Failed(
                    SpecParsingError::Custom("number too large to fit in target type"@),
                ),
                s.len() as int,
            )
        }),
    decreases s.len() - i,
{
    reveal(spec_parse_digit_run);
    if i == s.len() {
        assert(before + token_chars_from(s, i) =~= before);
    } else {
        assert(s[i].spec_erasable_type() is Digit);
        lemma_digit_run_over_digits(s, i + 1, before.push(s[i].spec_char()));
        assert(before.push(s[i].spec_char()) + token_chars_from(s, i + 1) =~= before
            + token_chars_from(s, i));
    }
}

/// LAW: integer literals parse to themselves. A non-empty run of digit
/// tokens whose value fits the unsigned precision parses to the single
/// positive, unit-free integer fragment of a single term carrying exactly
/// that value.
pub proof fn lemma_integer_literal_parses(ts: Seq<Erasable>)
    requires
        ts.len() > 0,
        forall|k: int| 0 <= k < ts.len() ==> (#[trigger] ts[k]).spec_erasable_type() is Digit,
        digits_val(token_chars_from(ts, 0)) <= u64::MAX,
    ensures
        spec_parse_into_expression(ts) == Ok::<SpecExpression, SpecParsingError>(
            seq![
                SpecTerm {
                    fragments: seq![
                        SpecFragment {
                            sign: Sign::Positive,
                            fragment_magnitude: SpecMagnitude::NonNamedConstant(
                                SpecConstant::Integer(
                                    digits_val(token_chars_from(ts, 0)) as u64,
                                ),
                            ),
                            multiplied_or_divided: MultipliedOrDivided::Neither,
                            angle_unit: None,
                        },
                    ],
                },
            ],
        ),
{
    reveal_with_fuel(spec_parse_terms, 2);
    reveal_with_fuel(spec_parse_term, 2);
    reveal_with_fuel(spec_parse_term_rest, 2);
    reveal_with_fuel(spec_parse_term_fragment, 2);
    reveal(spec_parse_term_fragment_operators);
    reveal_with_fuel(spec_count_signs, 3);
    reveal_with_fuel(spec_parse_fragment_suffixes, 2);
    reveal_with_fuel(spec_parse_digit_run, 2);
    let s2 = seq![Erasable::PlusSign] + ts;
    let n = s2.len() as int;
    let value = digits_val(token_chars_from(ts, 0)) as u64;
    assert(s2[0] == Erasable::PlusSign);
    assert(forall|k: int| 1 <= k < n ==> (#[trigger] s2[k]).spec_erasable_type() is Digit);

    // the sign run consumes exactly the auxiliary plus
    assert(spec_count_signs(s2, 0, 0) == (0nat, 1int));

    // the digit run consumes the rest
    assert(token_chars_from(s2, 1) =~= token_chars_from(ts, 0)) by {
        lemma_token_chars_shift(ts, s2, 1);
    }
    lemma_digit_run_over_digits(s2, 1, Seq::empty());
    assert(Seq::<char>::empty() + token_chars_from(s2, 1) =~= token_chars_from(s2, 1));

    let fragment = SpecFragment {
        sign: Sign::Positive,
        fragment_magnitude: SpecMagnitude::NonNamedConstant(SpecConstant::Integer(value)),
        multiplied_or_divided: MultipliedOrDivided::Neither,
        angle_unit: None,
    };
    assert(spec_parse_term_fragment_operators(s2, 0) == (
        (Some(Sign::Positive), Some(MultipliedOrDivided::Neither)),
        1int,
    ));
    assert(spec_parse_fragment_suffixes(s2, n, fragment, 2) == (
        SpecParsingResult::<SpecFragment>::Found(fragment),
        n,
    ));
    assert(spec_parse_term_fragment(s2, 1, Some(Sign::Positive), Some(
        MultipliedOrDivided::Neither,
    )) == (SpecParsingResult::<SpecFragment>::Found(fragment), n));
    assert(spec_parse_term_fragment(s2, 0, None, None) == (
        SpecParsingResult::<SpecFragment>::Found(fragment),
        n,
    ));
    assert(spec_parse_term_fragment(s2, n, None, None) == (
        SpecParsingResult::<SpecFragment>::Absent,
        n,
    ));
    assert(spec_parse_term_rest(s2, n, seq![fragment]) == (
        SpecParsingResult::<SpecTerm>::Found(SpecTerm { fragments: seq![fragment] }),
        n,
    ));
    assert(spec_parse_term(s2, 0) == (
        SpecParsingResult::<SpecTerm>::Found(SpecTerm { fragments: seq![fragment] }),
        n,
    ));
    assert(spec_parse_term(s2, n).0 is Absent);
    assert(spec_parse_terms(s2, n) == (
        Ok::<SpecExpression, SpecParsingError>(Seq::empty()),
        n,
    ));
    assert(seq![SpecTerm { fragments: seq![fragment] }] + Seq::<SpecTerm>::empty()
        =~= seq![SpecTerm { fragments: seq![fragment] }]);
}

/// The characters of a suffix of a prefixed sequence are the characters of
/// the unprefixed sequence.
proof fn lemma_token_chars_shift(ts: Seq<Erasable>, s2: Seq<Erasable>, i: int)
    requires
        0 <= i,
        s2.len() == ts.len() + i,
        forall|k: int| 0 <= k < ts.len() ==> s2[k + i] == ts[k],
    ensures
        token_chars_from(s2, i) == token_chars_from(ts, 0),
{
    lemma_token_chars_shift_from(ts, s2, i, 0);
}

/// Generalization of the shift over a running offset.
proof fn lemma_token_chars_shift_from(ts: Seq<Erasable>, s2: Seq<Erasable>, i: int, k: int)
    requires
        0 <= i,
        0 <= k <= ts.len(),
        s2.len() == ts.len() + i,
        forall|j: int| 0 <= j < ts.len() ==> s2[j + i] == ts[j],
    ensures
        token_chars_from(s2, k + i) == token_chars_from(ts, k),
    decreases ts.len() - k,
{
    if k < ts.len() {
        lemma_token_chars_shift_from(ts, s2, i, k + 1);
        assert(s2[k + i] == ts[k]);
    }
}

} // verus!

