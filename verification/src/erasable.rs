//! The token alphabet of the calculator.
//!
//! Each [`Erasable`] is one indivisible symbol of the input: a digit, an
//! operator, a bracket, a named constant, a function name, a structural
//! marker or an angle-unit marker. Every token has a canonical
//! single-character source encoding (the key the user presses) and a fixed
//! display string; the two coincide for most tokens.

use vstd::prelude::*;

use crate::errors::{ParsingError, SpecParsingError};

verus! {

/// One indivisible lexical symbol of the input alphabet.
///
/// The name records that the interactive editor erases these one at a time.
#[derive(Clone, Copy, Debug, PartialEq, Eq, Structural)]
pub enum Erasable {
    // digits
    Zero,
    One,
    Two,
    Three,
    Four,
    Five,
    Six,
    Seven,
    Eight,
    Nine,
    // arithmetic operators
    PlusSign,
    NegativeSign,
    MultiplicationSign,
    DivisionSign,
    // brackets; the three pairs are equivalent
    LeftParenthesis,
    RightParenthesis,
    LeftCurly,
    RightCurly,
    LeftSquare,
    RightSquare,
    // formatting
    Space,
    // decimal point
    DecimalPoint,
    // scientific notation; eg: 2.43E-3
    TimesTenToThePowerOf,
    // function-argument separator
    Comma,
    // named constants
    Pi,
    E,
    // functions
    Absolute,
    Sin,
    Cos,
    Tan,
    Arcsin,
    Arccos,
    Arctan,
    NthRoot,
    // structural markers (require complex rendering)
    FractionDivider,
    ExponentPlaceholder,
    // angle units
    Degrees,
    Radians,
}

/// The syntactic category of a token, used to drive parsing decisions.
#[derive(Clone, Copy, Debug, PartialEq, Eq, Structural)]
pub enum ErasableType {
    Digit,
    ArithmeticOperator,
    OpeningBracket,
    ClosingBracket,
    Formatting,
    DecimalPoint,
    ScientificNotation,
    Comma,
    NamedConstant,
    FunctionName,
    FractionDivider,
    ExponentPlaceholder,
    AngleUnit,
}

impl Erasable {
    /// The canonical single-character source encoding of this token.
    pub open spec fn spec_char(self) -> char {
        match self {
            Erasable::Zero => '0',
            Erasable::One => '1',
            Erasable::Two => '2',
            Erasable::Three => '3',
            Erasable::Four => '4',
            Erasable::Five => '5',
            Erasable::Six => '6',
            Erasable::Seven => '7',
            Erasable::Eight => '8',
            Erasable::Nine => '9',
            Erasable::PlusSign => '+',
            Erasable::NegativeSign => '-',
            Erasable::MultiplicationSign => '*',
            Erasable::DivisionSign => '/',
            Erasable::LeftParenthesis => '(',
            Erasable::RightParenthesis => ')',
            Erasable::LeftCurly => '{',
            Erasable::RightCurly => '}',
            Erasable::LeftSquare => '[',
            Erasable::RightSquare => ']',
            Erasable::Space => ' ',
            Erasable::DecimalPoint => '.',
            Erasable::TimesTenToThePowerOf => 'E',
            Erasable::Comma => ',',
            Erasable::Pi => 'p',
            Erasable::E => 'e',
            Erasable::Absolute => 'a',
            Erasable::Sin => 's',
            Erasable::Cos => 'c',
            Erasable::Tan => 't',
            Erasable::Arcsin => 'S',
            Erasable::Arccos => 'C',
            Erasable::Arctan => 'T',
            Erasable::NthRoot => 'R',
            Erasable::FractionDivider => '_',
            Erasable::ExponentPlaceholder => '^',
            Erasable::Degrees => 'd',
            Erasable::Radians => 'r',
        }
    }

    /// The token encoded by a character, if any. This is the inverse of
    /// [`Erasable::spec_char`]; the characters `h` and `q` are deliberately
    /// excluded from the alphabet (the interactive loop keeps them for help
    /// and quit).
    pub open spec fn spec_build(c: char) -> Option<Erasable> {
        match c {
            '0' => Some(Erasable::Zero),
            '1' => Some(Erasable::One),
            '2' => Some(Erasable::Two),
            '3' => Some(Erasable::Three),
            '4' => Some(Erasable::Four),
            '5' => Some(Erasable::Five),
            '6' => Some(Erasable::Six),
            '7' => Some(Erasable::Seven),
            '8' => Some(Erasable::Eight),
            '9' => Some(Erasable::Nine),
            '+' => Some(Erasable::PlusSign),
            '-' => Some(Erasable::NegativeSign),
            '*' => Some(Erasable::MultiplicationSign),
            '/' => Some(Erasable::DivisionSign),
            '(' => Some(Erasable::LeftParenthesis),
            ')' => Some(Erasable::RightParenthesis),
            '{' => Some(Erasable::LeftCurly),
            '}' => Some(Erasable::RightCurly),
            '[' => Some(Erasable::LeftSquare),
            ']' => Some(Erasable::RightSquare),
            ' ' => Some(Erasable::Space),
            '.' => Some(Erasable::DecimalPoint),
            'E' => Some(Erasable::TimesTenToThePowerOf),
            ',' => Some(Erasable::Comma),
            'p' => Some(Erasable::Pi),
            'e' => Some(Erasable::E),
            'a' => Some(Erasable::Absolute),
            's' => Some(Erasable::Sin),
            'c' => Some(Erasable::Cos),
            't' => Some(Erasable::Tan),
            'S' => Some(Erasable::Arcsin),
            'C' => Some(Erasable::Arccos),
            'T' => Some(Erasable::Arctan),
            'R' => Some(Erasable::NthRoot),
            '_' => Some(Erasable::FractionDivider),
            '^' => Some(Erasable::ExponentPlaceholder),
            'd' => Some(Erasable::Degrees),
            'r' => Some(Erasable::Radians),
            _ => None,
        }
    }

    /// The fixed display string of this token, as a character sequence.
    /// Most tokens display as their source character; the multi-character
    /// names (`pi`, the function names) and the degree sign are the
    /// exceptions.
    pub open spec fn spec_display(self) -> Seq<char> {
        match self {
            Erasable::Pi => seq!['p', 'i'],
            Erasable::Absolute => seq!['a', 'b', 's'],
            Erasable::Sin => seq!['s', 'i', 'n'],
            Erasable::Cos => seq!['c', 'o', 's'],
            Erasable::Tan => seq!['t', 'a', 'n'],
            Erasable::Arcsin => seq!['a', 's', 'i', 'n'],
            Erasable::Arccos => seq!['a', 'c', 'o', 's'],
            Erasable::Arctan => seq!['a', 't', 'a', 'n'],
            Erasable::NthRoot => seq!['N', 't', 'h', 'R', 'o', 'o', 't'],
            Erasable::Degrees => seq!['\u{b0}'],
            Erasable::Radians => seq!['r', 'a', 'd'],
            _ => seq![self.spec_char()],
        }
    }

    /// The syntactic category of this token.
    pub open spec fn spec_erasable_type(self) -> ErasableType {
        match self {
            Erasable::Zero
            | Erasable::One
            | Erasable::Two
            | Erasable::Three
            | Erasable::Four
            | Erasable::Five
            | Erasable::Six
            | Erasable::Seven
            | Erasable::Eight
            | Erasable::Nine => ErasableType::Digit,
            Erasable::PlusSign
            | Erasable::NegativeSign
            | Erasable::MultiplicationSign
            | Erasable::DivisionSign => ErasableType::ArithmeticOperator,
            Erasable::LeftParenthesis | Erasable::LeftCurly | Erasable::LeftSquare => ErasableType::OpeningBracket,
            Erasable::RightParenthesis | Erasable::RightCurly | Erasable::RightSquare => ErasableType::ClosingBracket,
            Erasable::Space => ErasableType::Formatting,
            Erasable::DecimalPoint => ErasableType::DecimalPoint,
            Erasable::TimesTenToThePowerOf => ErasableType::ScientificNotation,
            Erasable::Comma => ErasableType::Comma,
            Erasable::Pi | Erasable::E => ErasableType::NamedConstant,
            Erasable::Absolute
            | Erasable::Sin
            | Erasable::Cos
            | Erasable::Tan
            | Erasable::Arcsin
            | Erasable::Arccos
            | Erasable::Arctan
            | Erasable::NthRoot => ErasableType::FunctionName,
            Erasable::FractionDivider => ErasableType::FractionDivider,
            Erasable::ExponentPlaceholder => ErasableType::ExponentPlaceholder,
            Erasable::Degrees | Erasable::Radians => ErasableType::AngleUnit,
        }
    }

    /// A token displays exactly as its source character. Re-tokenizing the
    /// display string of such tokens gives the tokens back.
    pub open spec fn has_stable_encoding(self) -> bool {
        self.spec_display() == seq![self.spec_char()]
    }

    /// Decodes one character into a token; fails with `NoSuchCharacterCode`
    /// on every character outside the alphabet.
    pub fn build(c: char) -> (r: Result<Erasable, ParsingError>)
        ensures
            match Erasable::spec_build(c) {
                Some(e) => r matches Ok(v) && v == e,
                None => r matches Err(er) && er@ == SpecParsingError::NoSuchCharacterCode,
            },
    {
        match c {
            '0' => Ok(Erasable::Zero),
            '1' => Ok(Erasable::One),
            '2' => Ok(Erasable::Two),
            '3' => Ok(Erasable::Three),
            '4' => Ok(Erasable::Four),
            '5' => Ok(Erasable::Five),
            '6' => Ok(Erasable::Six),
            '7' => Ok(Erasable::Seven),
            '8' => Ok(Erasable::Eight),
            '9' => Ok(Erasable::Nine),
            '+' => Ok(Erasable::PlusSign),
            '-' => Ok(Erasable::NegativeSign),
            '*' => Ok(Erasable::MultiplicationSign),
            '/' => Ok(Erasable::DivisionSign),
            '(' => Ok(Erasable::LeftParenthesis),
            ')' => Ok(Erasable::RightParenthesis),
            '{' => Ok(Erasable::LeftCurly),
            '}' => Ok(Erasable::RightCurly),
            '[' => Ok(Erasable::LeftSquare),
            ']' => Ok(Erasable::RightSquare),
            ' ' => Ok(Erasable::Space),
            '.' => Ok(Erasable::DecimalPoint),
            'E' => Ok(Erasable::TimesTenToThePowerOf),
            ',' => Ok(Erasable::Comma),
            'p' => Ok(Erasable::Pi),
            'e' => Ok(Erasable::E),
            'a' => Ok(Erasable::Absolute),
            's' => Ok(Erasable::Sin),
            'c' => Ok(Erasable::Cos),
            't' => Ok(Erasable::Tan),
            'S' => Ok(Erasable::Arcsin),
            'C' => Ok(Erasable::Arccos),
            'T' => Ok(Erasable::Arctan),
            'R' => Ok(Erasable::NthRoot),
            '_' => Ok(Erasable::FractionDivider),
            '^' => Ok(Erasable::ExponentPlaceholder),
            'd' => Ok(Erasable::Degrees),
            'r' => Ok(Erasable::Radians),
            _ => Err(ParsingError::NoSuchCharacterCode),
        }
    }

    /// The canonical source character of this token.
    pub fn char_code(&self) -> (c: char)
        ensures
            c == self.spec_char(),
    {
        match self {
            Erasable::Zero => '0',
            Erasable::One => '1',
            Erasable::Two => '2',
            Erasable::Three => '3',
            Erasable::Four => '4',
            Erasable::Five => '5',
            Erasable::Six => '6',
            Erasable::Seven => '7',
            Erasable::Eight => '8',
            Erasable::Nine => '9',
            Erasable::PlusSign => '+',
            Erasable::NegativeSign => '-',
            Erasable::MultiplicationSign => '*',
            Erasable::DivisionSign => '/',
            Erasable::LeftParenthesis => '(',
            Erasable::RightParenthesis => ')',
            Erasable::LeftCurly => '{',
            Erasable::RightCurly => '}',
            Erasable::LeftSquare => '[',
            Erasable::RightSquare => ']',
            Erasable::Space => ' ',
            Erasable::DecimalPoint => '.',
            Erasable::TimesTenToThePowerOf => 'E',
            Erasable::Comma => ',',
            Erasable::Pi => 'p',
            Erasable::E => 'e',
            Erasable::Absolute => 'a',
            Erasable::Sin => 's',
            Erasable::Cos => 'c',
            Erasable::Tan => 't',
            Erasable::Arcsin => 'S',
            Erasable::Arccos => 'C',
            Erasable::Arctan => 'T',
            Erasable::NthRoot => 'R',
            Erasable::FractionDivider => '_',
            Erasable::ExponentPlaceholder => '^',
            Erasable::Degrees => 'd',
            Erasable::Radians => 'r',
        }
    }

    /// The syntactic category of this token.
    pub fn erasable_type(&self) -> (t: ErasableType)
        ensures
            t == self.spec_erasable_type(),
    {
        match self {
            Erasable::Zero
            | Erasable::One
            | Erasable::Two
            | Erasable::Three
            | Erasable::Four
            | Erasable::Five
            | Erasable::Six
            | Erasable::Seven
            | Erasable::Eight
            | Erasable::Nine => ErasableType::Digit,
            Erasable::PlusSign
            | Erasable::NegativeSign
            | Erasable::MultiplicationSign
            | Erasable::DivisionSign => ErasableType::ArithmeticOperator,
            Erasable::LeftParenthesis | Erasable::LeftCurly | Erasable::LeftSquare => ErasableType::OpeningBracket,
            Erasable::RightParenthesis | Erasable::RightCurly | Erasable::RightSquare => ErasableType::ClosingBracket,
            Erasable::Space => ErasableType::Formatting,
            Erasable::DecimalPoint => ErasableType::DecimalPoint,
            Erasable::TimesTenToThePowerOf => ErasableType::ScientificNotation,
            Erasable::Comma => ErasableType::Comma,
            Erasable::Pi | Erasable::E => ErasableType::NamedConstant,
            Erasable::Absolute
            | Erasable::Sin
            | Erasable::Cos
            | Erasable::Tan
            | Erasable::Arcsin
            | Erasable::Arccos
            | Erasable::Arctan
            | Erasable::NthRoot => ErasableType::FunctionName,
            Erasable::FractionDivider => ErasableType::FractionDivider,
            Erasable::ExponentPlaceholder => ErasableType::ExponentPlaceholder,
            Erasable::Degrees | Erasable::Radians => ErasableType::AngleUnit,
        }
    }

    /// The fixed display string of this token.
    pub fn display_str(&self) -> (s: &'static str)
        ensures
            s@ == self.spec_display(),
    {
        let s: &'static str = match self {
            Erasable::Zero => "0",
            Erasable::One => "1",
            Erasable::Two => "2",
            Erasable::Three => "3",
            Erasable::Four => "4",
            Erasable::Five => "5",
            Erasable::Six => "6",
            Erasable::Seven => "7",
            Erasable::Eight => "8",
            Erasable::Nine => "9",
            Erasable::PlusSign => "+",
            Erasable::NegativeSign => "-",
            Erasable::MultiplicationSign => "*",
            Erasable::DivisionSign => "/",
            Erasable::LeftParenthesis => "(",
            Erasable::RightParenthesis => ")",
            Erasable::LeftCurly => "{",
            Erasable::RightCurly => "}",
            Erasable::LeftSquare => "[",
            Erasable::RightSquare => "]",
            Erasable::Space => " ",
            Erasable::DecimalPoint => ".",
            Erasable::TimesTenToThePowerOf => "E",
            Erasable::Comma => ",",
            Erasable::Pi => "pi",
            Erasable::E => "e",
            Erasable::Absolute => "abs",
            Erasable::Sin => "sin",
            Erasable::Cos => "cos",
            Erasable::Tan => "tan",
            Erasable::Arcsin => "asin",
            Erasable::Arccos => "acos",
            Erasable::Arctan => "atan",
            Erasable::NthRoot => "NthRoot",
            Erasable::FractionDivider => "_",
            Erasable::ExponentPlaceholder => "^",
            Erasable::Degrees => "\u{b0}",
            Erasable::Radians => "rad",
        };
        proof {
            reveal_strlit("0");
            reveal_strlit("1");
            reveal_strlit("2");
            reveal_strlit("3");
            reveal_strlit("4");
            reveal_strlit("5");
            reveal_strlit("6");
            reveal_strlit("7");
            reveal_strlit("8");
            reveal_strlit("9");
            reveal_strlit("+");
            reveal_strlit("-");
            reveal_strlit("*");
            reveal_strlit("/");
            reveal_strlit("(");
            reveal_strlit(")");
            reveal_strlit("{");
            reveal_strlit("}");
            reveal_strlit("[");
            reveal_strlit("]");
            reveal_strlit(" ");
            reveal_strlit(".");
            reveal_strlit("E");
            reveal_strlit(",");
            reveal_strlit("pi");
            reveal_strlit("e");
            reveal_strlit("abs");
            reveal_strlit("sin");
            reveal_strlit("cos");
            reveal_strlit("tan");
            reveal_strlit("asin");
            reveal_strlit("acos");
            reveal_strlit("atan");
            reveal_strlit("NthRoot");
            reveal_strlit("_");
            reveal_strlit("^");
            reveal_strlit("\u{b0}");
            reveal_strlit("rad");
            assert(s@ =~= self.spec_display());
        }
        s
    }

    /// The length of the display string, in characters.
    pub fn length_in_chars(&self) -> (n: usize)
        ensures
            n == self.spec_display().len(),
    {
        match self {
            Erasable::Pi => 2,
            Erasable::Absolute => 3,
            Erasable::Sin => 3,
            Erasable::Cos => 3,
            Erasable::Tan => 3,
            Erasable::Arcsin => 4,
            Erasable::Arccos => 4,
            Erasable::Arctan => 4,
            Erasable::NthRoot => 7,
            Erasable::Radians => 3,
            _ => 1,
        }
    }
}

/// Decoding inverts encoding: building a token from its canonical source
/// character gives the token back. In particular the source encoding is
/// injective over the whole alphabet.
pub proof fn lemma_build_inverts_char(e: Erasable)
    ensures
        Erasable::spec_build(e.spec_char()) == Some(e),
{
}

} // verus!
