use actor_calc::actors::evaluate_line;
use actor_calc::actors::PipeMessage;
use actor_calc::parser::parse;
use actor_calc::render::{render_expr, render_i64};

#[test]
fn renders_zero_and_signs() {
    assert_eq!(render_i64(0), "0".to_string());
    assert_eq!(render_i64(42), "42".to_string());
    assert_eq!(render_i64(-5), "-5".to_string());
}

#[test]
fn renders_extreme_values() {
    assert_eq!(render_i64(i64::MAX), "9223372036854775807".to_string());
    assert_eq!(render_i64(i64::MIN), "-9223372036854775808".to_string());
}

#[test]
fn renders_expression_with_needed_parentheses_only() {
    let e = parse("(2+3)*4").expect("expected a parse");
    assert_eq!(render_expr(&e), "(2 + 3) * 4".to_string());
    let e = parse("2+(3*4)").expect("expected a parse");
    assert_eq!(render_expr(&e), "2 + 3 * 4".to_string());
    let e = parse("2*(3+4)").expect("expected a parse");
    assert_eq!(render_expr(&e), "2 * (3 + 4)".to_string());
}

#[test]
fn renders_right_operand_grouping() {
    let e = parse("10-(3-2)").expect("expected a parse");
    assert_eq!(render_expr(&e), "10 - (3 - 2)".to_string());
}

#[test]
fn success_line_echoes_operands() {
    match evaluate_line("2 *  3+4") {
        PipeMessage::Result(text) => assert_eq!(text, "2 * 3 + 4 = 10"),
        other => panic!("expected a result message, got {:?}", other),
    }
}
