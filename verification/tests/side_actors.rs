use actor_calc::console::{ConsoleActor, ConsoleMessage, ConsoleStep};
use actor_calc::hello::{HelloActor, HelloMessage};

#[test]
fn hello_world_line() {
    assert_eq!(
        HelloActor::handle(&HelloMessage::SayHello),
        "Hello world!".to_string()
    );
}

#[test]
fn hello_named_line() {
    assert_eq!(
        HelloActor::handle(&HelloMessage::SayHelloTo("Ann".to_string())),
        "Hello, Ann!".to_string()
    );
}

#[test]
fn console_asks_for_a_line() {
    let mut actor = ConsoleActor::new();
    assert_eq!(
        actor.handle(ConsoleMessage::ReadInput),
        ConsoleStep::AwaitLine
    );
    assert!(!actor.stopped);
}

#[test]
fn console_quit_in_any_casing_halts() {
    let mut actor = ConsoleActor::new();
    assert_eq!(
        actor.handle(ConsoleMessage::ProcessInput(" QuIt \n".to_string())),
        ConsoleStep::Halt
    );
    assert!(actor.stopped);
    assert_eq!(
        actor.handle(ConsoleMessage::ReadInput),
        ConsoleStep::Idle
    );
}

#[test]
fn console_hands_out_trimmed_text() {
    let mut actor = ConsoleActor::new();
    assert_eq!(
        actor.handle(ConsoleMessage::ProcessInput("  21 \n".to_string())),
        ConsoleStep::Compute("21".to_string())
    );
    assert!(!actor.stopped);
}

#[test]
fn console_quitter_is_not_a_quit() {
    let mut actor = ConsoleActor::new();
    assert_eq!(
        actor.handle(ConsoleMessage::ProcessInput("quitter".to_string())),
        ConsoleStep::Compute("quitter".to_string())
    );
}
