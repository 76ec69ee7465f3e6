use tictactoe::input::MoveParseError;
use tictactoe::input::parse_move_line;
use tictactoe::input::read_line_values;
use tictactoe::input::wants_replay;

#[test]
fn read_line_values_keeps_integer_tokens_in_order() {
    assert_eq!(read_line_values("1 2"), vec![1, 2]);
    assert_eq!(read_line_values("  10 abc 3  "), vec![10, 3]);
    assert_eq!(read_line_values(""), Vec::<usize>::new());
    assert_eq!(read_line_values("   \t \n"), Vec::<usize>::new());
    assert_eq!(read_line_values("a 1 b 2"), vec![1, 2]);
}

#[test]
fn read_line_values_accepts_a_leading_plus() {
    assert_eq!(read_line_values("+2 3"), vec![2, 3]);
    assert_eq!(read_line_values("++2"), Vec::<usize>::new());
    assert_eq!(read_line_values("+"), Vec::<usize>::new());
    assert_eq!(read_line_values("2+"), Vec::<usize>::new());
}

#[test]
fn read_line_values_drops_tokens_that_overflow() {
    assert_eq!(read_line_values("18446744073709551615"), vec![usize::MAX]);
    assert_eq!(read_line_values("18446744073709551616"), Vec::<usize>::new());
    assert_eq!(read_line_values("99999999999999999999999999 1 2"), vec![1, 2]);
}

#[test]
fn read_line_values_rejects_signs_and_fractions() {
    assert_eq!(read_line_values("-1 2"), vec![2]);
    assert_eq!(read_line_values("1.5 2"), vec![2]);
}

#[test]
fn parse_move_line_accepts_two_coordinates_in_range() {
    assert_eq!(parse_move_line("1 1"), Ok((0, 0)));
    assert_eq!(parse_move_line("1 3"), Ok((0, 2)));
    assert_eq!(parse_move_line("3 2"), Ok((2, 1)));
    assert_eq!(parse_move_line("  2   3  "), Ok((1, 2)));
    assert_eq!(parse_move_line("1\t2"), Ok((0, 1)));
}

#[test]
fn parse_move_line_rejects_wrong_token_counts() {
    assert_eq!(parse_move_line(""), Err(MoveParseError::NotTwoNumbers));
    assert_eq!(parse_move_line("1"), Err(MoveParseError::NotTwoNumbers));
    assert_eq!(parse_move_line("1 2 3"), Err(MoveParseError::NotTwoNumbers));
    assert_eq!(parse_move_line("abc def"), Err(MoveParseError::NotTwoNumbers));
    assert_eq!(parse_move_line("1 2 3 4"), Err(MoveParseError::NotTwoNumbers));
}

#[test]
fn parse_move_line_rejects_coordinates_outside_one_to_three() {
    assert_eq!(parse_move_line("4 1"), Err(MoveParseError::OutOfRange));
    assert_eq!(parse_move_line("1 4"), Err(MoveParseError::OutOfRange));
    assert_eq!(parse_move_line("0 2"), Err(MoveParseError::OutOfRange));
    assert_eq!(parse_move_line("2 0"), Err(MoveParseError::OutOfRange));
    assert_eq!(parse_move_line("10 10"), Err(MoveParseError::OutOfRange));
}

#[test]
fn unparsable_tokens_change_the_count_not_the_values() {
    // A token that is not an integer is skipped, so two integers among
    // other tokens still make a valid move line.
    assert_eq!(parse_move_line("x 1 y 2"), Ok((0, 1)));
    // Three integers are one too many even if one is out of range.
    assert_eq!(parse_move_line("1 2 9"), Err(MoveParseError::NotTwoNumbers));
}

#[test]
fn wants_replay_accepts_exactly_a_trimmed_y() {
    assert!(wants_replay("y"));
    assert!(wants_replay("y\n"));
    assert!(wants_replay("  y  "));
    assert!(wants_replay("\ty\r\n"));
    assert!(!wants_replay("n"));
    assert!(!wants_replay("Y"));
    assert!(!wants_replay("yes"));
    assert!(!wants_replay(""));
    assert!(!wants_replay("  "));
    assert!(!wants_replay("y y"));
}
