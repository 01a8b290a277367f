use actor_calc::expr::{op_action, ArithmeticError, Expression, Op};
use actor_calc::lexer::ParseError;
use actor_calc::parser::parse;

fn eval_str(s: &str) -> Result<i64, ArithmeticError> {
    op_action(&parse(s).expect("expected a parse"))
}

#[test]
fn single_number() {
    assert_eq!(parse("42"), Ok(Expression::Numb(42)));
    assert_eq!(eval_str("42"), Ok(42));
}

#[test]
fn single_number_with_whitespace() {
    assert_eq!(parse("  7\t"), Ok(Expression::Numb(7)));
}

#[test]
fn max_literal_accepted() {
    assert_eq!(
        parse("9223372036854775807"),
        Ok(Expression::Numb(i64::MAX))
    );
}

#[test]
fn oversized_literal_rejected() {
    assert_eq!(
        parse("9223372036854775808"),
        Err(ParseError::NumberTooLarge(0))
    );
}

#[test]
fn subtraction_is_left_associative() {
    let expected = Expression::Operator(
        Op::Minus,
        Box::new(Expression::Operator(
            Op::Minus,
            Box::new(Expression::Numb(10)),
            Box::new(Expression::Numb(3)),
        )),
        Box::new(Expression::Numb(2)),
    );
    assert_eq!(parse("10-3-2"), Ok(expected));
    assert_eq!(eval_str("10-3-2"), Ok(5));
}

#[test]
fn division_is_left_associative() {
    assert_eq!(eval_str("100/5/2"), Ok(10));
}

#[test]
fn multiplication_binds_tighter_than_addition() {
    let expected = Expression::Operator(
        Op::Plus,
        Box::new(Expression::Numb(2)),
        Box::new(Expression::Operator(
            Op::Mul,
            Box::new(Expression::Numb(3)),
            Box::new(Expression::Numb(4)),
        )),
    );
    assert_eq!(parse("2+3*4"), Ok(expected));
    assert_eq!(eval_str("2+3*4"), Ok(14));
}

#[test]
fn parentheses_override_precedence() {
    assert_eq!(eval_str("(2+3)*4"), Ok(20));
}

#[test]
fn whitespace_between_tokens() {
    assert_eq!(eval_str(" 2 + 4 "), Ok(6));
}

#[test]
fn division_truncates_toward_zero() {
    assert_eq!(eval_str("7/2"), Ok(3));
}

#[test]
fn negative_division_truncates_toward_zero() {
    assert_eq!(eval_str("(0-7)/2"), Ok(-3));
}

#[test]
fn unary_minus_is_rejected() {
    assert_eq!(parse("-7/2"), Err(ParseError::ExpectedAtom(0)));
}

#[test]
fn division_by_zero_reported() {
    assert_eq!(eval_str("5/0"), Err(ArithmeticError::DivisionByZero));
}

#[test]
fn min_by_minus_one_wraps() {
    assert_eq!(
        eval_str("(0-9223372036854775807-1)/(0-1)"),
        Ok(i64::MIN)
    );
}

#[test]
fn empty_line_rejected() {
    assert_eq!(parse(""), Err(ParseError::ExpectedAtom(0)));
}

#[test]
fn dangling_operator_rejected() {
    assert_eq!(parse("2+"), Err(ParseError::ExpectedAtom(2)));
}

#[test]
fn unclosed_parenthesis_rejected() {
    assert_eq!(parse("(2+3"), Err(ParseError::UnclosedParen(4)));
}

#[test]
fn adjacent_numbers_rejected() {
    assert_eq!(parse("2 3"), Err(ParseError::TrailingInput(1)));
}

#[test]
fn stray_character_rejected() {
    assert_eq!(parse("abc"), Err(ParseError::InvalidChar(0)));
    assert_eq!(parse("2+a"), Err(ParseError::InvalidChar(2)));
}

#[test]
fn addition_wraps_on_overflow() {
    assert_eq!(
        eval_str("9223372036854775807+1"),
        Ok(i64::MIN)
    );
}
