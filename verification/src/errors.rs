//! The error families of the calculator.
//!
//! `ParsingError` covers syntax-level failures (bad characters, malformed
//! token sequences, bracket mismatches); `CalculationError` covers
//! semantic-level failures found while evaluating a structurally valid
//! expression. Both are fatal to the current operation: the first error is
//! propagated upward unchanged.

use vstd::prelude::*;

verus! {

/// A syntax-level failure while tokenizing or parsing.
#[derive(Debug)]
pub enum ParsingError {
    /// A character does not encode any token.
    NoSuchCharacterCode,
    /// The input string was empty.
    CannotParseEmptyString,
    /// An opening bracket without its closing partner (or the reverse).
    MismatchedBrackets,
    /// Something other than the expected token appeared.
    ExpectedButFound { expected: String, found: String },
    /// The token stream ended where more input was required.
    EndOfInput,
    /// A token appeared in a position where it cannot start anything.
    Unexpected(String),
    /// More than one decimal point in a single numeric literal.
    ExcessiveDecimalPoints,
    /// Any other failure, described by a message.
    Custom(String),
}

/// The mathematical model of a [`ParsingError`]: the same variants, with
/// messages as character sequences.
pub enum SpecParsingError {
    NoSuchCharacterCode,
    CannotParseEmptyString,
    MismatchedBrackets,
    ExpectedButFound { expected: Seq<char>, found: Seq<char> },
    EndOfInput,
    Unexpected(Seq<char>),
    ExcessiveDecimalPoints,
    Custom(Seq<char>),
}

impl View for ParsingError {
    type V = SpecParsingError;

    open spec fn view(&self) -> SpecParsingError {
        match self {
            ParsingError::NoSuchCharacterCode => SpecParsingError::NoSuchCharacterCode,
            ParsingError::CannotParseEmptyString => SpecParsingError::CannotParseEmptyString,
            ParsingError::MismatchedBrackets => SpecParsingError::MismatchedBrackets,
            ParsingError::ExpectedButFound { expected, found } => SpecParsingError::ExpectedButFound {
                expected: expected@,
                found: found@,
            },
            ParsingError::EndOfInput => SpecParsingError::EndOfInput,
            ParsingError::Unexpected(s) => SpecParsingError::Unexpected(s@),
            ParsingError::ExcessiveDecimalPoints => SpecParsingError::ExcessiveDecimalPoints,
            ParsingError::Custom(s) => SpecParsingError::Custom(s@),
        }
    }
}

impl SpecParsingError {
    /// The one-line, human-readable rendering of this error, always prefixed
    /// with `error: `.
    pub open spec fn display(self) -> Seq<char> {
        "error: "@ + match self {
            SpecParsingError::NoSuchCharacterCode => "couldn't parse character"@,
            SpecParsingError::CannotParseEmptyString => "cannot parse an empty string"@,
            SpecParsingError::MismatchedBrackets => "mismatched brackets"@,
            SpecParsingError::ExpectedButFound { expected, found } => "expected "@ + expected
                + " but found "@ + found,
            SpecParsingError::EndOfInput => "unexpected end of input"@,
            SpecParsingError::ExcessiveDecimalPoints => "only one decimal point is allowed in a decimal"@,
            SpecParsingError::Unexpected(x) => "unexpected "@ + x,
            SpecParsingError::Custom(s) => s,
        }
    }
}

impl ParsingError {
    /// Renders the error as the single line shown to the user.
    pub fn to_display_string(&self) -> (r: String)
        ensures
            r@ == self@.display(),
    {
        let mut r = String::from_str("error: ");
        match self {
            ParsingError::NoSuchCharacterCode => r.append("couldn't parse character"),
            ParsingError::CannotParseEmptyString => r.append("cannot parse an empty string"),
            ParsingError::MismatchedBrackets => r.append("mismatched brackets"),
            ParsingError::ExpectedButFound { expected, found } => {
                r.append("expected ");
                r.append(expected.as_str());
                r.append(" but found ");
                r.append(found.as_str());
            },
            ParsingError::EndOfInput => r.append("unexpected end of input"),
            ParsingError::ExcessiveDecimalPoints => r.append(
                "only one decimal point is allowed in a decimal",
            ),
            ParsingError::Unexpected(x) => {
                r.append("unexpected ");
                r.append(x.as_str());
            },
            ParsingError::Custom(s) => r.append(s.as_str()),
        }
        proof {
            assert(r@ =~= self@.display());
        }
        r
    }
}

/// A failed mutation of the editable buffer.
#[derive(Clone, Copy, Debug, PartialEq, Eq, Structural)]
pub enum MutationOperationError {
    /// An insertion would overwrite existing data.
    AdditionError,
    /// There was nothing left to remove.
    RemovalError,
}

/// A failed cursor movement in the editable buffer.
#[derive(Clone, Copy, Debug, PartialEq, Eq, Structural)]
pub enum MovementError {
    /// The cursor is already at the last element.
    NoNextElement,
    /// The cursor is already before the first element.
    NoPrevElement,
}

/// A failed removal from the editable buffer.
#[derive(Clone, Copy, Debug, PartialEq, Eq, Structural)]
pub struct RemovalError;

/// A semantic-level failure while evaluating a parsed expression, carrying a
/// human-readable message.
#[derive(Debug)]
pub struct CalculationError(String);

impl View for CalculationError {
    type V = Seq<char>;

    closed spec fn view(&self) -> Seq<char> {
        self.0@
    }
}

impl CalculationError {
    /// Wraps a message into an error value.
    pub fn new(msg: String) -> (e: CalculationError)
        ensures
            e@ == msg@,
    {
        CalculationError(msg)
    }

    /// The message this error was built from.
    pub fn message(&self) -> (msg: &String)
        ensures
            msg@ == self@,
    {
        &self.0
    }
}

} // verus!
