//! End-to-end evaluation: the parsed tree reduced with floating-point
//! arithmetic, exactly as the calculator's interactive loop does.

use calculator::calculation::Calculator;
use calculator::erasable_cluster::ErasableCluster;
use calculator::expression::AngleUnit;
use calculator::inexact::{Inexact, Value};

/// Reduces a numeric computation with `f64` arithmetic.
fn eval_value(v: &Value) -> f64 {
    match v {
        Value::Integer(n) => *n as f64,
        Value::Decimal { before_decimal_point, after_decimal_point } => {
            format!("{}.{}", before_decimal_point, after_decimal_point).parse::<f64>().unwrap()
        }
        Value::Pi => std::f64::consts::PI,
        Value::E => std::f64::consts::E,
        Value::Negated(x) => -1.0 * eval_value(x),
        Value::Reciprocal(x) => 1.0 / eval_value(x),
        Value::Sum(a, b) => eval_value(a) + eval_value(b),
        Value::Product(a, b) => eval_value(a) * eval_value(b),
        Value::Quotient(a, b) => eval_value(a) / eval_value(b),
        Value::Power(a, b) => eval_value(a).powf(eval_value(b)),
        Value::Sine(x) => eval_value(x).sin(),
        Value::Cosine(x) => eval_value(x).cos(),
        Value::Tangent(x) => eval_value(x).tan(),
        Value::Arcsine(x) => eval_value(x).asin(),
        Value::Arccosine(x) => eval_value(x).acos(),
        Value::Arctangent(x) => eval_value(x).atan(),
        Value::AbsoluteValue(x) => eval_value(x).abs(),
        Value::ToRadians(x) => eval_value(x).to_radians(),
        Value::ToDegrees(x) => eval_value(x).to_degrees(),
    }
}

fn eval_str(s: &str) -> Inexact {
    let cluster = ErasableCluster::build(s).unwrap();
    let mut calc = Calculator::build(&cluster).unwrap();
    calc.next_inexact_output_mode().unwrap()
}

#[test]
fn expression_to_inexact_works() {
    let cluster = ErasableCluster::build("t(45d) + S(0.5)^4 - 2a(-3)(8)^(2-1 +1)").unwrap();
    let mut calc = Calculator::build(&cluster).unwrap();

    let result = calc.next_inexact_output_mode().unwrap();
    let expected = -382.924838664;

    assert!((expected - eval_value(&result.value)).abs() < 1e-4);
    // radians cuz sine returns sine
    assert_eq!(result.unit, Some(AngleUnit::Radians));

    // this time in degrees

    let result = calc.next_inexact_output_mode().unwrap();
    let expected = -21939.9771;

    assert!((expected - eval_value(&result.value)).abs() < 1e-4);
    assert_eq!(result.unit, Some(AngleUnit::Degrees));
}

#[test]
fn integer_literals_evaluate_to_themselves() {
    for n in [0u64, 1, 7, 42, 120, 99999] {
        let r = eval_str(&n.to_string());
        assert_eq!(eval_value(&r.value), n as f64);
        assert_eq!(r.unit, None);
    }
}

#[test]
fn unit_suffix_tags_a_literal() {
    let cluster = ErasableCluster::build("30d").unwrap();
    let expression = calculator::parsers::parse_into_expression(cluster.iter()).unwrap();
    let r = calculator::inexact::expression_to_inexact(&expression).unwrap();
    assert_eq!(r.unit, Some(AngleUnit::Degrees));
    assert_eq!(eval_value(&r.value), 30.0);
}

#[test]
fn sine_normalizes_degrees_and_drops_the_unit() {
    let cluster = ErasableCluster::build("s(30d)").unwrap();
    let expression = calculator::parsers::parse_into_expression(cluster.iter()).unwrap();
    let r = calculator::inexact::expression_to_inexact(&expression).unwrap();
    assert!((eval_value(&r.value) - 0.5).abs() < 1e-12);
    assert_eq!(r.unit, None);
}

#[test]
fn arcsin_is_always_tagged_radians() {
    for input in ["S(0.5)", "S(0.5d)", "S(1r)", "C(0)", "T(1)"] {
        let r = eval_str(input);
        assert_eq!(r.unit, Some(AngleUnit::Radians));
    }
    let asin_half = eval_str("S(0.5)");
    assert!((eval_value(&asin_half.value) - 0.5f64.asin()).abs() < 1e-12);
}

#[test]
fn division_uses_the_reciprocal() {
    let r = eval_str("4/2");
    assert_eq!(eval_value(&r.value), 2.0);

    let r = eval_str("1/0");
    let v = eval_value(&r.value);
    assert!(v.is_nan() || v.is_infinite());
}

#[test]
fn dangling_point_decimals_evaluate() {
    let r = eval_str("5.");
    assert_eq!(eval_value(&r.value), 5.0);
    let r = eval_str(".5");
    assert_eq!(eval_value(&r.value), 0.5);
}

#[test]
fn named_constants_evaluate() {
    let r = eval_str("p");
    assert!((eval_value(&r.value) - std::f64::consts::PI).abs() < 1e-12);
    let r = eval_str("2e");
    assert!((eval_value(&r.value) - 2.0 * std::f64::consts::E).abs() < 1e-12);
}

#[test]
fn nthroot_takes_degree_and_radicand() {
    let r = eval_str("R(3,8)");
    assert!((eval_value(&r.value) - 2.0).abs() < 1e-12);
}

#[test]
fn reevaluation_is_stable() {
    // two calculators over the same input derive their results
    // independently and agree; and cycling twice comes back to radians
    let a = eval_str("t(45d) + 2");
    let b = eval_str("t(45d) + 2");
    assert_eq!(eval_value(&a.value), eval_value(&b.value));
    assert_eq!(a.unit, b.unit);

    let cluster = ErasableCluster::build("30d").unwrap();
    let mut calc = Calculator::build(&cluster).unwrap();
    let first = calc.next_inexact_output_mode().unwrap();
    let _degrees = calc.next_inexact_output_mode().unwrap();
    let third = calc.next_inexact_output_mode().unwrap();
    assert_eq!(eval_value(&first.value), eval_value(&third.value));
    assert_eq!(first.unit, third.unit);
}

#[test]
fn empty_brackets_are_a_calculation_error() {
    let cluster = ErasableCluster::build("()").unwrap();
    let expression = calculator::parsers::parse_into_expression(cluster.iter()).unwrap();
    let err = calculator::inexact::expression_to_inexact(&expression).unwrap_err();
    assert_eq!(err.message(), "empty expression");
}

#[test]
fn lone_decimal_point_is_a_calculation_error() {
    let cluster = ErasableCluster::build(".").unwrap();
    let expression = calculator::parsers::parse_into_expression(cluster.iter()).unwrap();
    let err = calculator::inexact::expression_to_inexact(&expression).unwrap_err();
    assert_eq!(err.message(), "invalid float literal");
}

/// A single-fragment expression holding one decimal constant with the
/// given digit strings.
fn decimal_expression(before: &str, after: &str) -> calculator::expression::Expression {
    vec![calculator::expression::Term {
        fragments: vec![calculator::expression::TermFragment {
            sign: calculator::sign::Sign::Positive,
            fragment_magnitude: calculator::expression::TermFragmentMagnitude::NonNamedConstant(
                calculator::expression::UnnamedConstant::Decimal {
                    before_decimal_point: before.to_string(),
                    after_decimal_point: after.to_string(),
                },
            ),
            multiplied_or_divided: calculator::expression::MultipliedOrDivided::Neither,
            angle_unit: None,
        }],
    }]
}

#[test]
fn malformed_decimal_strings_are_a_calculation_error() {
    let expression = decimal_expression("x", "");
    let err = calculator::inexact::expression_to_inexact(&expression).unwrap_err();
    assert_eq!(err.message(), "invalid float literal");
}

#[test]
fn decimal_errors_agree_with_float_parsing() {
    // the evaluator errs on a decimal's digit strings exactly when the
    // concatenation around the point is not a valid float literal
    let pairs = [
        ("", ""),
        ("1", ""),
        ("", "5"),
        ("1", "5"),
        ("007", "120"),
        ("x", ""),
        ("", "x"),
        ("1", "2e3"),
        ("1", "e5"),
        ("", "e5"),
        ("+1", "2"),
        ("-0", "5"),
        ("in", "f"),
        ("", "nan"),
        ("1 ", "2"),
        ("1", "2.3"),
    ];
    for (before, after) in pairs {
        let parses = format!("{}.{}", before, after).parse::<f64>().is_ok();
        let expression = decimal_expression(before, after);
        let outcome = calculator::inexact::expression_to_inexact(&expression);
        assert_eq!(outcome.is_ok(), parses, "digit strings {:?}.{:?}", before, after);
        if let Err(err) = outcome {
            assert_eq!(err.message(), "invalid float literal");
        }
    }
}
