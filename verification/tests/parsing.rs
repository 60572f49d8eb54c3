//! Tokenizing and parsing: the token alphabet, the editable buffer, and
//! the recursive-descent parser with its error taxonomy.

use calculator::erasable::Erasable;
use calculator::erasable_cluster::{CursorPositionUnit, ErasableCluster};
use calculator::errors::ParsingError;
use calculator::parsers::parse_into_expression;
use calculator::parsing_calculator::ParsingCalculator;

#[test]
fn building_an_erasable_works() {
    let acos = Erasable::build('C').unwrap();
    assert_eq!(acos, Erasable::Arccos);
}

#[test]
#[should_panic]
fn invalid_characters_panic() {
    Erasable::build('h').unwrap();
}

#[test]
fn erasable_cluster_parse_into_erasables() {
    let cluster = ErasableCluster::build("120 + 23").unwrap();
    let expected = vec![
        Erasable::One,
        Erasable::Two,
        Erasable::Zero,
        Erasable::Space,
        Erasable::PlusSign,
        Erasable::Space,
        Erasable::Two,
        Erasable::Three,
    ];

    assert_eq!(cluster.iter().len(), expected.len());

    for i in 0..expected.len() {
        assert_eq!(cluster.iter()[i], expected[i]);
    }
}

#[test]
fn erasable_cluster_getting_the_cursor_works() {
    let cluster = ErasableCluster::build("120 + 23c(30)").unwrap();

    let pos_in_chars = cluster.get_cursor_position(CursorPositionUnit::Chars).unwrap();
    let pos_in_e_count = cluster.get_cursor_position(CursorPositionUnit::ErasableCount).unwrap();

    assert_eq!(pos_in_chars, "120 + 23cos(30)".len() - 1);
    assert_eq!(pos_in_e_count, "120 + 23c(30)".len() - 1);
}

#[test]
#[should_panic]
fn erasable_cluster_moving_the_cursor_past_the_last_doesnt_work() {
    let mut cluster = ErasableCluster::build("1 + 1").unwrap();
    cluster.move_cursor_to_next_erasable().unwrap();
}

#[test]
#[should_panic]
fn erasable_cluster_moving_the_cursor_before_the_first_doesnt_work() {
    let mut cluster = ErasableCluster::build("1 + 1").unwrap();

    loop {
        cluster.move_cursor_to_prev_erasable().unwrap();
    }
}

#[test]
fn erasable_cluster_moving_the_cursor_to_prev_works() {
    let mut cluster = ErasableCluster::build("1 + 1").unwrap();

    cluster.move_cursor_to_prev_erasable().unwrap();
    cluster.move_cursor_to_prev_erasable().unwrap();

    let pos_in_chars = cluster.get_cursor_position(CursorPositionUnit::Chars).unwrap();
    let pos_in_e_count = cluster.get_cursor_position(CursorPositionUnit::ErasableCount).unwrap();

    assert_eq!(pos_in_chars, pos_in_e_count);
    assert_eq!(pos_in_chars, 2);
}

#[test]
fn erasable_cluster_moving_the_cursor_to_next_works() {
    let mut cluster = ErasableCluster::build("1 + 1").unwrap();

    cluster.move_cursor_to_prev_erasable().unwrap();
    cluster.move_cursor_to_prev_erasable().unwrap();

    cluster.move_cursor_to_next_erasable().unwrap();

    let pos_in_chars = cluster.get_cursor_position(CursorPositionUnit::Chars).unwrap();
    let pos_in_e_count = cluster.get_cursor_position(CursorPositionUnit::ErasableCount).unwrap();

    assert_eq!(pos_in_chars, pos_in_e_count);
    assert_eq!(pos_in_chars, 3);
}

#[test]
fn erasable_cluster_cursor_convenience_methods() {
    let cluster = ErasableCluster::build("1 + 1").unwrap();
    assert!(cluster.is_cursor_at_end());
}

#[test]
fn erasable_cluster_adding_to_a_cluster_at_cursor_position() {
    let mut cluster = ErasableCluster::new();
    cluster.add_at_cursor_position('1').unwrap();
    cluster.add_at_cursor_position('+').unwrap();
    cluster.add_at_cursor_position('1').unwrap();
    cluster.add_at_cursor_position('1').unwrap();

    let pos = cluster.get_cursor_position(CursorPositionUnit::ErasableCount).unwrap();

    assert_eq!(pos, 3);
}

#[test]
fn erasable_cluster_removing_from_a_cluster_at_cursor_position() {
    let mut cluster = ErasableCluster::build("1 + 1").unwrap();
    cluster.move_cursor_to_prev_erasable().unwrap();

    cluster.remove_at_cursor_position().unwrap();
    cluster.remove_at_cursor_position().unwrap();
    cluster.remove_at_cursor_position().unwrap();

    assert_eq!(&vec![Erasable::One, Erasable::One], cluster.iter());

    let pos = cluster.get_cursor_position(CursorPositionUnit::ErasableCount).unwrap();

    assert_eq!(pos, 0);
}

#[test]
fn displaying_a_cluster_works() {
    let cluster = ErasableCluster::build("s(30d)").unwrap();
    assert_eq!(cluster.to_string(), "sin(30\u{b0})");
}

#[test]
fn parsers_parsing_works() {
    let cluster = ErasableCluster::build("10204.12p").unwrap();

    let _expr = parse_into_expression(cluster.iter());
}

#[test]
fn parsing_calculator_parsing_works() {
    let cluster = ErasableCluster::build("1").unwrap();

    let _calc = ParsingCalculator::build(&cluster).unwrap();
}

#[test]
fn empty_input_cannot_be_tokenized() {
    let err = ErasableCluster::build("").unwrap_err();
    assert!(matches!(err, ParsingError::CannotParseEmptyString));
}

#[test]
fn unknown_characters_are_rejected() {
    let err = ErasableCluster::build("1#2").unwrap_err();
    assert!(matches!(err, ParsingError::NoSuchCharacterCode));
}

#[test]
fn unclosed_brackets_are_rejected() {
    let cluster = ErasableCluster::build("(1+2").unwrap();
    let err = parse_into_expression(cluster.iter()).unwrap_err();
    assert!(matches!(err, ParsingError::MismatchedBrackets));
}

#[test]
fn two_decimal_points_are_rejected() {
    let cluster = ErasableCluster::build("1..2").unwrap();
    let err = parse_into_expression(cluster.iter()).unwrap_err();
    assert!(matches!(err, ParsingError::ExcessiveDecimalPoints));
}

#[test]
fn oversized_integer_literals_are_rejected() {
    let cluster = ErasableCluster::build("99999999999999999999").unwrap();
    let err = parse_into_expression(cluster.iter()).unwrap_err();
    match err {
        ParsingError::Custom(msg) => {
            assert_eq!(msg, "number too large to fit in target type");
        }
        _ => panic!("expected a custom overflow error"),
    }
}

#[test]
fn scientific_notation_marker_is_unexpected() {
    let cluster = ErasableCluster::build("E2").unwrap();
    let err = parse_into_expression(cluster.iter()).unwrap_err();
    assert!(matches!(err, ParsingError::Unexpected(_)));
}

#[test]
fn function_without_arguments_runs_out_of_input() {
    let cluster = ErasableCluster::build("s").unwrap();
    let err = parse_into_expression(cluster.iter()).unwrap_err();
    assert!(matches!(err, ParsingError::EndOfInput));
}

#[test]
fn multiplication_cannot_start_a_term() {
    let cluster = ErasableCluster::build("*5").unwrap();
    let err = parse_into_expression(cluster.iter()).unwrap_err();
    match err {
        ParsingError::Custom(msg) => assert_eq!(msg, "expected the start of a new term"),
        _ => panic!("expected a custom start-of-term error"),
    }
}

#[test]
fn display_and_tokenize_round_trip() {
    // tokens whose display string is their source character survive the
    // round trip through the canonical display string
    let source = "1+2*(3-4)/5.6";
    let cluster = ErasableCluster::build(source).unwrap();
    let rendered = cluster.to_string();
    assert_eq!(rendered, source);
    let again = ErasableCluster::build(&rendered).unwrap();
    assert_eq!(cluster.iter(), again.iter());
}

#[test]
fn error_display_lines_are_prefixed() {
    let cluster = ErasableCluster::build("(1+2").unwrap();
    let err = parse_into_expression(cluster.iter()).unwrap_err();
    assert_eq!(err.to_display_string(), "error: mismatched brackets");
}

#[test]
fn removing_from_an_empty_buffer_fails() {
    let mut cluster = ErasableCluster::new();
    let err = cluster.remove_at_cursor_position().unwrap_err();
    assert_eq!(err, calculator::errors::MutationOperationError::RemovalError);
}

#[test]
fn empty_point_free_digit_run_fails_like_integer_parsing() {
    // the run-closer itself, at a position holding no digit and no point
    let tokens = vec![Erasable::PlusSign];
    let (outcome, position) = calculator::parsers::parse_into_int_or_decimal(&tokens, 0);
    assert_eq!(position, 0);
    match outcome {
        calculator::parsers::ParsingResult::Failed(ParsingError::Custom(msg)) => {
            assert_eq!(msg, "cannot parse integer from empty string");
        }
        _ => panic!("expected the empty-string integer error"),
    }
}
