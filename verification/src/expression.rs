//! The expression tree produced by the parser.
//!
//! An [`Expression`] is an ordered sequence of [`Term`]s (a sum); a `Term` is
//! an ordered sequence of [`TermFragment`]s (a product/quotient chain); each
//! fragment carries a sign, a magnitude, a combinator and an optional
//! angle-unit suffix. Every embedded expression (bracket contents, function
//! arguments, power base and exponent, fraction sides) is itself a fully
//! formed expression, owned exclusively by its parent node.
//!
//! Each executable type has a mathematical model (`Spec...`) over `Seq` and
//! `Seq<char>`; the `model` functions relate the two. Contracts elsewhere in
//! the crate speak about the models.

use vstd::prelude::*;

use crate::sign::Sign;

verus! {

/// The unsigned integer width used for integer literals.
pub type UnsignedValuePrecision = u64;

/// The signed integer width used where a sign can be carried in the number.
pub type SignedValuePrecision = i64;

/// An angle unit; the canonical internal frame for combining unit-bearing
/// quantities is radians.
#[derive(Clone, Copy, Debug, PartialEq, Eq, Structural)]
pub enum AngleUnit {
    Degrees,
    Radians,
}

/// How a fragment joins the fragment chain of its term: multiplied in,
/// divided in, or neither because it is the first fragment of a new term.
#[derive(Clone, Copy, Debug, PartialEq, Eq, Structural)]
pub enum MultipliedOrDivided {
    Multiplied,
    Divided,
    /// Marks the beginning of a term.
    Neither,
}

/// A named mathematical constant.
#[derive(Clone, Copy, Debug, PartialEq, Eq, Structural)]
pub enum NamedConstant {
    Pi,
    E,
}

/// A sum of terms, evaluated left to right.
pub type Expression = Vec<Term>;

/// A product/quotient chain of fragments.
#[derive(Debug)]
pub struct Term {
    pub fragments: Vec<TermFragment>,
}

/// One signed, optionally divided, optionally unit-tagged operand of a term.
#[derive(Debug)]
pub struct TermFragment {
    pub sign: Sign,
    pub fragment_magnitude: TermFragmentMagnitude,
    pub multiplied_or_divided: MultipliedOrDivided,
    pub angle_unit: Option<AngleUnit>,
}

/// The value-bearing payload of a fragment.
#[derive(Debug)]
pub enum TermFragmentMagnitude {
    NonNamedConstant(UnnamedConstant),
    /// A fully parenthesized sub-expression.
    Bracket(Expression),
    /// A named constant scaled by a coefficient expression (the parser uses
    /// the coefficient `1`).
    NamedConstant { coefficient: Expression, constant: NamedConstant },
    Function(Function),
}

/// A constant written out by the user rather than named.
#[derive(Debug)]
pub enum UnnamedConstant {
    Integer(UnsignedValuePrecision),
    Fraction { numerator: Expression, denominator: Expression },
    /// The digit strings are kept verbatim, preserving leading and trailing
    /// zeros.
    Decimal { before_decimal_point: String, after_decimal_point: String },
    Power { base: Expression, exponent: Expression },
}

/// A function application.
#[derive(Debug)]
pub enum Function {
    Absolute(Expression),
    Sin(Expression),
    Cos(Expression),
    Tan(Expression),
    Arcsin(Expression),
    Arccos(Expression),
    Arctan(Expression),
    /// In the form `NthRoot(n, value under the root)`.
    NthRoot(Expression, Expression),
}

/// Model of an [`Expression`]: a sequence of term models.
pub type SpecExpression = Seq<SpecTerm>;

/// Model of a [`Term`].
#[verifier::ext_equal]
pub struct SpecTerm {
    pub fragments: Seq<SpecFragment>,
}

/// Model of a [`TermFragment`].
#[verifier::ext_equal]
pub struct SpecFragment {
    pub sign: Sign,
    pub fragment_magnitude: SpecMagnitude,
    pub multiplied_or_divided: MultipliedOrDivided,
    pub angle_unit: Option<AngleUnit>,
}

/// Model of a [`TermFragmentMagnitude`].
#[verifier::ext_equal]
pub enum SpecMagnitude {
    NonNamedConstant(SpecConstant),
    Bracket(SpecExpression),
    NamedConstant { coefficient: SpecExpression, constant: NamedConstant },
    Function(SpecFunction),
}

/// Model of an [`UnnamedConstant`].
#[verifier::ext_equal]
pub enum SpecConstant {
    Integer(UnsignedValuePrecision),
    Fraction { numerator: SpecExpression, denominator: SpecExpression },
    Decimal { before_decimal_point: Seq<char>, after_decimal_point: Seq<char> },
    Power { base: SpecExpression, exponent: SpecExpression },
}

/// Model of a [`Function`].
#[verifier::ext_equal]
pub enum SpecFunction {
    Absolute(SpecExpression),
    Sin(SpecExpression),
    Cos(SpecExpression),
    Tan(SpecExpression),
    Arcsin(SpecExpression),
    Arccos(SpecExpression),
    Arctan(SpecExpression),
    NthRoot(SpecExpression, SpecExpression),
}

/// The model of a sequence of terms, element by element.
pub open spec fn expression_model(terms: Seq<Term>) -> SpecExpression
    decreases terms,
{
    if terms.len() == 0 {
        Seq::empty()
    } else {
        seq![terms[0].model()] + expression_model(terms.subrange(1, terms.len() as int))
    }
}

/// The model of a sequence of fragments, element by element.
pub open spec fn fragments_model(fragments: Seq<TermFragment>) -> Seq<SpecFragment>
    decreases fragments,
{
    if fragments.len() == 0 {
        Seq::empty()
    } else {
        seq![fragments[0].model()] + fragments_model(
            fragments.subrange(1, fragments.len() as int),
        )
    }
}

/// Appending a fragment appends its model.
pub proof fn lemma_fragments_model_push(fragments: Seq<TermFragment>, f: TermFragment)
    ensures
        fragments_model(fragments.push(f)) == fragments_model(fragments).push(f.model()),
    decreases fragments.len(),
{
    reveal_with_fuel(fragments_model, 2);
    if fragments.len() == 0 {
        assert(fragments.push(f).subrange(1, 1) =~= Seq::<TermFragment>::empty());
        assert(fragments_model(fragments.push(f)) =~= fragments_model(fragments).push(f.model()));
    } else {
        let rest = fragments.subrange(1, fragments.len() as int);
        assert(fragments.push(f).subrange(1, fragments.len() as int + 1) =~= rest.push(f));
        lemma_fragments_model_push(rest, f);
        assert(fragments_model(fragments.push(f)) =~= fragments_model(fragments).push(f.model()));
    }
}

impl Term {
    /// The mathematical model of this term.
    pub open spec fn model(self) -> SpecTerm
        decreases self,
    {
        SpecTerm { fragments: fragments_model(self.fragments@) }
    }
}

impl TermFragment {
    /// The mathematical model of this fragment.
    pub open spec fn model(self) -> SpecFragment
        decreases self,
    {
        SpecFragment {
            sign: self.sign,
            fragment_magnitude: self.fragment_magnitude.model(),
            multiplied_or_divided: self.multiplied_or_divided,
            angle_unit: self.angle_unit,
        }
    }
}

impl TermFragmentMagnitude {
    /// The mathematical model of this magnitude.
    pub open spec fn model(self) -> SpecMagnitude
        decreases self,
    {
        match self {
            TermFragmentMagnitude::NonNamedConstant(c) => SpecMagnitude::NonNamedConstant(c.model()),
            TermFragmentMagnitude::Bracket(e) => SpecMagnitude::Bracket(expression_model(e@)),
            TermFragmentMagnitude::NamedConstant { coefficient, constant } => SpecMagnitude::NamedConstant {
                coefficient: expression_model(coefficient@),
                constant,
            },
            TermFragmentMagnitude::Function(f) => SpecMagnitude::Function(f.model()),
        }
    }
}

impl UnnamedConstant {
    /// The mathematical model of this constant.
    pub open spec fn model(self) -> SpecConstant
        decreases self,
    {
        match self {
            UnnamedConstant::Integer(n) => SpecConstant::Integer(n),
            UnnamedConstant::Fraction { numerator, denominator } => SpecConstant::Fraction {
                numerator: expression_model(numerator@),
                denominator: expression_model(denominator@),
            },
            UnnamedConstant::Decimal { before_decimal_point, after_decimal_point } => SpecConstant::Decimal {
                before_decimal_point: before_decimal_point@,
                after_decimal_point: after_decimal_point@,
            },
            UnnamedConstant::Power { base, exponent } => SpecConstant::Power {
                base: expression_model(base@),
                exponent: expression_model(exponent@),
            },
        }
    }
}

impl Function {
    /// The mathematical model of this function application.
    pub open spec fn model(self) -> SpecFunction
        decreases self,
    {
        match self {
            Function::Absolute(e) => SpecFunction::Absolute(expression_model(e@)),
            Function::Sin(e) => SpecFunction::Sin(expression_model(e@)),
            Function::Cos(e) => SpecFunction::Cos(expression_model(e@)),
            Function::Tan(e) => SpecFunction::Tan(expression_model(e@)),
            Function::Arcsin(e) => SpecFunction::Arcsin(expression_model(e@)),
            Function::Arccos(e) => SpecFunction::Arccos(expression_model(e@)),
            Function::Arctan(e) => SpecFunction::Arctan(expression_model(e@)),
            Function::NthRoot(degree, radicand) => SpecFunction::NthRoot(
                expression_model(degree@),
                expression_model(radicand@),
            ),
        }
    }
}

} // verus!
