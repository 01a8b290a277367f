//! The console actor: the doubling calculator's decision logic. Each cycle
//! it asks the runtime for a line, then either ends the session — on a
//! case-insensitive `quit` — or hands the trimmed text out for numeric
//! processing. The numeric work itself and every prompt stay with the
//! runtime.

use vstd::prelude::*;

verus! {

use crate::actors::{spec_trimmed, trim_line};

/// The console actor's two messages: acquire a line, then process it.
#[derive(PartialEq, Eq, Debug)]
pub enum ConsoleMessage {
    ReadInput,
    ProcessInput(String),
}

/// What the console actor asks of the runtime after one message.
#[derive(PartialEq, Eq, Debug)]
pub enum ConsoleStep {
    /// Read one line and feed it back as `ProcessInput`.
    AwaitLine,
    /// The session is over; stop the actor.
    Halt,
    /// Process this trimmed text numerically, then re-arm with
    /// `ReadInput`.
    Compute(String),
    /// Nothing to do.
    Idle,
}

/// The operator asked to leave: the trimmed line is `quit` in any casing.
pub open spec fn is_quit(s: Seq<char>) -> bool {
    &&& s.len() == 4
    &&& (s[0] == 'q' || s[0] == 'Q')
    &&& (s[1] == 'u' || s[1] == 'U')
    &&& (s[2] == 'i' || s[2] == 'I')
    &&& (s[3] == 't' || s[3] == 'T')
}

/// The console actor: repeatedly acquires one line and decides what to do
/// with it, until the operator quits.
#[derive(PartialEq, Eq, Structural, Clone, Copy, Debug)]
pub struct ConsoleActor {
    /// Whether the session is over.
    pub stopped: bool,
}

impl ConsoleActor {
    /// A fresh console actor.
    pub fn new() -> (r: ConsoleActor)
        ensures
            !r.stopped,
    {
        ConsoleActor { stopped: false }
    }

    /// One message. `ReadInput` asks the runtime for a line; a processed
    /// line either ends the session — exactly when its trimmed text is
    /// `quit` in any casing — or goes out for numeric processing. A
    /// stopped actor does nothing.
    pub fn handle(&mut self, msg: ConsoleMessage) -> (r: ConsoleStep)
        ensures
            match msg {
                ConsoleMessage::ReadInput => if old(self).stopped {
                    *final(self) == *old(self) && r == ConsoleStep::Idle
                } else {
                    *final(self) == *old(self) && r == ConsoleStep::AwaitLine
                },
                ConsoleMessage::ProcessInput(s) => if old(self).stopped {
                    *final(self) == *old(self) && r == ConsoleStep::Idle
                } else if is_quit(spec_trimmed(s@)) {
                    final(self).stopped && r == ConsoleStep::Halt
                } else {
                    *final(self) == *old(self) && (r matches ConsoleStep::Compute(t) && t@
                        == spec_trimmed(s@))
                },
            },
    {
        match msg {
            ConsoleMessage::ReadInput => {
                if self.stopped {
                    ConsoleStep::Idle
                } else {
                    ConsoleStep::AwaitLine
                }
            },
            ConsoleMessage::ProcessInput(s) => {
                if self.stopped {
                    return ConsoleStep::Idle;
                }
                let t = trim_line(s.as_str());
                let quit = t.as_str().unicode_len() == 4 && {
                    let c0 = t.as_str().get_char(0);
                    let c1 = t.as_str().get_char(1);
                    let c2 = t.as_str().get_char(2);
                    let c3 = t.as_str().get_char(3);
                    (c0 == 'q' || c0 == 'Q') && (c1 == 'u' || c1 == 'U') && (c2 == 'i' || c2 == 'I')
                        && (c3 == 't' || c3 == 'T')
                };
                if quit {
                    self.stopped = true;
                    ConsoleStep::Halt
                } else {
                    ConsoleStep::Compute(t)
                }
            },
        }
    }
}

} // verus!
