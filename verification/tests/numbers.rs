//! Signs, the highest common factor, exact rationals, and the byte-literal
//! reader of the discriminant-string attribute.

use calculator::attr_args::{parse_literal, Config, OutputType};
use calculator::helpers::hcf;
use calculator::rational_number::RationalNumber;
use calculator::sign::Sign;

#[test]
fn sign_building_a_sign() {
    assert_eq!(Sign::Positive, Sign::build(true));
    assert_eq!(Sign::Negative, Sign::build(false));
}

#[test]
fn sign_sign_negation() {
    assert_eq!(Sign::Positive, Sign::Negative.inverse());
    assert_eq!(Sign::Negative, Sign::Positive.inverse());
}

#[test]
fn hcf_works() {
    assert_eq!(hcf(5, 7), 1);
    assert_eq!(hcf(50, 60), 10);
}

#[test]
fn create_rational_number() {
    let two_by_three = RationalNumber::new(2, 3);
    assert_eq!(two_by_three.to_string(), "2/3");

    let negative_two_by_three = RationalNumber::new(40, -60);
    assert_eq!(negative_two_by_three.to_string(), "-2/3");
}

#[test]
fn adding_rational_numbers_works() {
    let a = RationalNumber::new(3, 4);
    let b = RationalNumber::new(4, 3);
    let sum = a.plus(b);
    assert_eq!(sum, RationalNumber::new(25, 12));
}

#[test]
fn byte_literals_are_read() {
    assert_eq!(parse_literal("98"), Some(98));
    assert_eq!(parse_literal("0"), Some(0));
    assert_eq!(parse_literal("255"), Some(255));
    assert_eq!(parse_literal("256"), None);
    assert_eq!(parse_literal("'a'"), Some(b'a'));
    assert_eq!(parse_literal("b'6'"), Some(b'6'));
    assert_eq!(parse_literal("sundry"), None);
    assert_eq!(parse_literal(""), None);
}

#[test]
fn configurations_hold_their_parts() {
    let config = Config::new(OutputType::Num, vec![1, 2]);
    assert!(matches!(config.output(), OutputType::Num));
    assert_eq!(config.exceptions(), &vec![1, 2]);
}
