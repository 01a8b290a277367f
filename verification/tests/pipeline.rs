use actor_calc::actors::{evaluate_line, trim_line, Calculator, Effect, OutActor, PipeMessage, TextReader};

#[test]
fn end_to_end_success() {
    let mut reader = TextReader::new();
    let effects = reader.handle(PipeMessage::Start, Some("2+4".to_string()));
    assert_eq!(
        effects,
        vec![
            Effect::SendCalculator(PipeMessage::Message("2+4".to_string())),
            Effect::Rearm
        ]
    );
    assert_eq!(reader.attempts, 1);

    let mut calc = Calculator::new();
    let effects = calc.handle(PipeMessage::Message("2+4".to_string()));
    assert_eq!(
        effects,
        vec![Effect::SendReporter(PipeMessage::Result(
            "2 + 4 = 6".to_string()
        ))]
    );

    let mut out = OutActor::new();
    let effects = out.handle(PipeMessage::Result("2 + 4 = 6".to_string()));
    assert_eq!(effects, vec![Effect::PrintLine("2 + 4 = 6".to_string())]);
}

#[test]
fn end_to_end_parenthesized() {
    let mut calc = Calculator::new();
    let effects = calc.handle(PipeMessage::Message("(2+3)*4".to_string()));
    assert_eq!(
        effects,
        vec![Effect::SendReporter(PipeMessage::Result(
            "(2 + 3) * 4 = 20".to_string()
        ))]
    );
}

#[test]
fn division_by_zero_then_next_line_ok() {
    let mut calc = Calculator::new();
    let effects = calc.handle(PipeMessage::Message("5/0".to_string()));
    assert_eq!(
        effects,
        vec![Effect::SendReporter(PipeMessage::Error(
            "division by zero".to_string()
        ))]
    );
    let effects = calc.handle(PipeMessage::Message("2+4".to_string()));
    assert_eq!(
        effects,
        vec![Effect::SendReporter(PipeMessage::Result(
            "2 + 4 = 6".to_string()
        ))]
    );
}

#[test]
fn malformed_line_then_next_line_ok() {
    let mut calc = Calculator::new();
    let effects = calc.handle(PipeMessage::Message("abc".to_string()));
    assert_eq!(
        effects,
        vec![Effect::SendReporter(PipeMessage::Error(
            "unexpected character at position 0".to_string()
        ))]
    );
    let effects = calc.handle(PipeMessage::Message("10-3-2".to_string()));
    assert_eq!(
        effects,
        vec![Effect::SendReporter(PipeMessage::Result(
            "10 - 3 - 2 = 5".to_string()
        ))]
    );
}

#[test]
fn reader_rejects_blank_line() {
    let mut reader = TextReader::new();
    let effects = reader.handle(PipeMessage::Start, Some("   \n".to_string()));
    assert_eq!(
        effects,
        vec![
            Effect::SendReporter(PipeMessage::Error(
                "invalid or empty expression".to_string()
            )),
            Effect::Rearm
        ]
    );
    assert_eq!(reader.attempts, 1);
}

#[test]
fn reader_reports_input_fault() {
    let mut reader = TextReader::new();
    let effects = reader.handle(PipeMessage::Start, None);
    assert_eq!(
        effects,
        vec![
            Effect::SendReporter(PipeMessage::Error("input unavailable".to_string())),
            Effect::Rearm
        ]
    );
}

#[test]
fn reader_trims_acquired_line() {
    let mut reader = TextReader::new();
    let effects = reader.handle(PipeMessage::Start, Some("  2+4 \n".to_string()));
    assert_eq!(
        effects,
        vec![
            Effect::SendCalculator(PipeMessage::Message("2+4".to_string())),
            Effect::Rearm
        ]
    );
}

#[test]
fn rearm_counts_attempts_and_forwards() {
    let lines = [
        Some("2+4"),
        Some("   "),
        None,
        Some("10-3-2"),
        Some("abc"),
    ];
    let mut reader = TextReader::new();
    let mut forwarded = 0;
    for line in lines.iter() {
        let effects = reader.handle(PipeMessage::Start, line.map(|l| l.to_string()));
        assert_eq!(effects.len(), 2);
        assert_eq!(effects[1], Effect::Rearm);
        if matches!(effects[0], Effect::SendCalculator(_)) {
            forwarded += 1;
        }
    }
    assert_eq!(reader.attempts, 5);
    assert_eq!(forwarded, 3);
}

#[test]
fn stop_makes_every_actor_terminal() {
    let mut reader = TextReader::new();
    let mut calc = Calculator::new();
    let mut out = OutActor::new();

    assert_eq!(reader.handle(PipeMessage::Stop, None), vec![]);
    assert_eq!(calc.handle(PipeMessage::Stop), vec![]);
    assert_eq!(out.handle(PipeMessage::Stop), vec![]);
    assert!(reader.stopped && calc.stopped && out.stopped);

    assert_eq!(
        reader.handle(PipeMessage::Start, Some("2+4".to_string())),
        vec![]
    );
    assert_eq!(reader.attempts, 0);
    assert_eq!(calc.handle(PipeMessage::Message("2+4".to_string())), vec![]);
    assert_eq!(out.handle(PipeMessage::Result("6".to_string())), vec![]);
}

#[test]
fn out_actor_routes_errors_to_warning_channel() {
    let mut out = OutActor::new();
    let effects = out.handle(PipeMessage::Error("division by zero".to_string()));
    assert_eq!(
        effects,
        vec![Effect::PrintWarn("division by zero".to_string())]
    );
}

#[test]
fn actors_ignore_foreign_messages() {
    let mut calc = Calculator::new();
    assert_eq!(calc.handle(PipeMessage::Start), vec![]);
    let mut out = OutActor::new();
    assert_eq!(out.handle(PipeMessage::Start), vec![]);
    assert!(!calc.stopped && !out.stopped);
}

#[test]
fn evaluate_line_reports_parse_position() {
    match evaluate_line("2+") {
        PipeMessage::Error(text) => {
            assert_eq!(text, "expected a number or '(' at token 2");
        }
        other => panic!("expected an error message, got {:?}", other),
    }
}

#[test]
fn trim_line_strips_both_ends() {
    assert_eq!(trim_line(" \t2 + 4\n "), "2 + 4".to_string());
    assert_eq!(trim_line("   "), String::new());
    assert_eq!(trim_line(""), String::new());
}
