//! The three actors of the pipeline as verified state machines. Each actor
//! is a function from its state and one message to its next state and the
//! effects it asks of the runtime: sends to the other actors, a re-arm of
//! the reader's cycle, lines for the operator. The runtime that schedules
//! them, sleeps and touches the console performs those effects outside.
//!
//! Data flows reader → calculator → reporter only; `Stop` makes any actor
//! terminal, and a terminal actor asks for nothing further.

use vstd::prelude::*;

verus! {

use crate::expr::{op_action, spec_eval};
use crate::lexer::{is_space, is_space_char};
use crate::parser::{parse, spec_parse};
use crate::render::{
    render_arith_error,
    render_parse_error,
    render_result_line,
    spec_arith_error_text,
    spec_parse_error_text,
    spec_result_line,
};

/// The one message type all actors of the pipeline exchange.
#[derive(PartialEq, Eq, Debug)]
pub enum PipeMessage {
    /// The reader's self-directed re-arm signal.
    Start,
    /// One candidate expression line, reader to calculator.
    Message(String),
    /// A failure description, for the reporter.
    Error(String),
    /// A rendered success line, calculator to reporter.
    Result(String),
    /// A request for graceful termination, to any actor.
    Stop,
}

/// What an actor asks of the runtime after handling one message.
#[derive(PartialEq, Eq, Debug)]
pub enum Effect {
    /// Deliver this message to the calculator actor.
    SendCalculator(PipeMessage),
    /// Deliver this message to the reporter actor.
    SendReporter(PipeMessage),
    /// After the fixed inter-cycle delay, deliver `Start` to the reader
    /// again.
    Rearm,
    /// Show this line to the operator on the ordinary output channel.
    PrintLine(String),
    /// Show this line to the operator on the warning channel.
    PrintWarn(String),
}

/// The first position at or after `i` holding no whitespace.
pub open spec fn space_run_end(s: Seq<char>, i: int) -> int
    decreases s.len() - i,
{
    if i < s.len() && is_space_char(s[i]) {
        space_run_end(s, i + 1)
    } else {
        i
    }
}

/// The position after the last non-whitespace character strictly before
/// `j`, or `0` if there is none.
pub open spec fn trim_end_idx(s: Seq<char>, j: int) -> int
    decreases j,
{
    if 0 < j <= s.len() && is_space_char(s[j - 1]) {
        trim_end_idx(s, j - 1)
    } else {
        j
    }
}

/// The line with leading and trailing whitespace removed.
pub open spec fn spec_trimmed(s: Seq<char>) -> Seq<char> {
    let a = space_run_end(s, 0);
    let b = trim_end_idx(s, s.len() as int);
    if a <= b {
        s.subrange(a, b)
    } else {
        Seq::empty()
    }
}

/// Strips leading and trailing whitespace, exactly as `spec_trimmed` says.
pub fn trim_line(s: &str) -> (r: String)
    ensures
        r@ == spec_trimmed(s@),
{
    let n = s.unicode_len();
    let mut a: usize = 0;
    while a < n && is_space(s.get_char(a))
        invariant
            n == s@.len(),
            a <= n,
            space_run_end(s@, 0) == space_run_end(s@, a as int),
        decreases n - a,
    {
        a += 1;
    }
    let mut b: usize = n;
    while b > 0 && is_space(s.get_char(b - 1))
        invariant
            n == s@.len(),
            b <= n,
            trim_end_idx(s@, n as int) == trim_end_idx(s@, b as int),
        decreases b,
    {
        b -= 1;
    }
    assert(space_run_end(s@, 0) == a as int);
    assert(trim_end_idx(s@, n as int) == b as int);
    if a < b {
        let piece = s.substring_char(a, b);
        piece.to_owned()
    } else {
        let r = String::new();
        proof {
            assert(r@ =~= spec_trimmed(s@));
        }
        r
    }
}

/// A cycle's acquisition is usable when a line arrived and something
/// remains of it once trimmed.
pub open spec fn is_usable_line(l: Option<Seq<char>>) -> bool {
    match l {
        Some(t) => spec_trimmed(t).len() > 0,
        None => false,
    }
}

/// The reader actor: one acquisition attempt per `Start` cycle, forwarding
/// usable lines to the calculator and reporting the rest, re-arming itself
/// after either, until `Stop` makes it terminal.
#[derive(PartialEq, Eq, Structural, Clone, Copy, Debug)]
pub struct TextReader {
    /// How many acquisition cycles this reader has run.
    pub attempts: u64,
    /// Whether `Stop` has made the reader terminal.
    pub stopped: bool,
}

impl TextReader {
    /// A fresh reader: no cycles run, not stopped.
    pub fn new() -> (r: TextReader)
        ensures
            r.attempts == 0,
            !r.stopped,
    {
        TextReader { attempts: 0, stopped: false }
    }

    /// One message. For `Start`, `line` is what the input source yielded
    /// this cycle: a line, or nothing on a hard input fault. A usable line
    /// goes, trimmed, to the calculator; anything else becomes one error to
    /// the reporter; both are followed by a re-arm. `Stop` is terminal, and
    /// a terminal reader does nothing. Other messages are not the reader's
    /// and are ignored.
    pub fn handle(&mut self, msg: PipeMessage, line: Option<String>) -> (effects: Vec<Effect>)
        requires
            old(self).attempts < u64::MAX,
        ensures
            match msg {
                PipeMessage::Start => if old(self).stopped {
                    *final(self) == *old(self) && effects@.len() == 0
                } else {
                    &&& final(self).stopped == old(self).stopped
                    &&& final(self).attempts == old(self).attempts + 1
                    &&& effects@.len() == 2
                    &&& effects@[1] == Effect::Rearm
                    &&& match line {
                        Some(raw) => if spec_trimmed(raw@).len() > 0 {
                            effects@[0] matches Effect::SendCalculator(PipeMessage::Message(t))
                                && t@ == spec_trimmed(raw@)
                        } else {
                            effects@[0] matches Effect::SendReporter(PipeMessage::Error(t)) && t@
                                == "invalid or empty expression"@
                        },
                        None => effects@[0] matches Effect::SendReporter(PipeMessage::Error(t))
                            && t@ == "input unavailable"@,
                    }
                },
                PipeMessage::Stop => final(self).stopped && final(self).attempts == old(
                    self,
                ).attempts && effects@.len() == 0,
                _ => *final(self) == *old(self) && effects@.len() == 0,
            },
    {
        match msg {
            PipeMessage::Start => {
                if self.stopped {
                    return Vec::new();
                }
                self.attempts = self.attempts + 1;
                let mut effects: Vec<Effect> = Vec::new();
                match line {
                    Some(raw) => {
                        let t = trim_line(raw.as_str());
                        if !t.as_str().is_empty() {
                            effects.push(Effect::SendCalculator(PipeMessage::Message(t)));
                        } else {
                            effects.push(
                                Effect::SendReporter(
                                    PipeMessage::Error(
                                        String::from_str("invalid or empty expression"),
                                    ),
                                ),
                            );
                        }
                    },
                    None => {
                        effects.push(
                            Effect::SendReporter(
                                PipeMessage::Error(String::from_str("input unavailable")),
                            ),
                        );
                    },
                }
                effects.push(Effect::Rearm);
                effects
            },
            PipeMessage::Stop => {
                self.stopped = true;
                Vec::new()
            },
            _ => Vec::new(),
        }
    }
}

/// The verdict on one candidate line: the rendered success line, or the
/// description of the first failure — the parse error with its position,
/// or division by zero.
pub open spec fn spec_outcome(s: Seq<char>) -> Result<Seq<char>, Seq<char>> {
    match spec_parse(s) {
        Ok(e) => match spec_eval(e) {
            Ok(v) => Ok(spec_result_line(e, v)),
            Err(a) => Err(spec_arith_error_text(a)),
        },
        Err(pe) => Err(spec_parse_error_text(pe)),
    }
}

/// Parses, reduces and renders one candidate line into the message the
/// reporter should receive: `Result` with the success line, or `Error`
/// with the failure's description, exactly as `spec_outcome` says.
pub fn evaluate_line(text: &str) -> (m: PipeMessage)
    ensures
        match spec_outcome(text@) {
            Ok(t) => m matches PipeMessage::Result(out) && out@ == t,
            Err(t) => m matches PipeMessage::Error(out) && out@ == t,
        },
{
    match parse(text) {
        Ok(e) => match op_action(&e) {
            Ok(v) => PipeMessage::Result(render_result_line(&e, v)),
            Err(a) => PipeMessage::Error(render_arith_error(&a)),
        },
        Err(pe) => PipeMessage::Error(render_parse_error(&pe)),
    }
}

/// The calculator actor: stateless across cycles, it turns each incoming
/// line into one message for the reporter, until `Stop` makes it terminal.
#[derive(PartialEq, Eq, Structural, Clone, Copy, Debug)]
pub struct Calculator {
    /// Whether `Stop` has made the calculator terminal.
    pub stopped: bool,
}

impl Calculator {
    /// A fresh calculator.
    pub fn new() -> (r: Calculator)
        ensures
            !r.stopped,
    {
        Calculator { stopped: false }
    }

    /// One message. A candidate line is evaluated and answered with exactly
    /// one message to the reporter; `Stop` is terminal; everything else,
    /// and every message to a terminal calculator, is ignored.
    pub fn handle(&mut self, msg: PipeMessage) -> (effects: Vec<Effect>)
        ensures
            match msg {
                PipeMessage::Message(text) => if old(self).stopped {
                    *final(self) == *old(self) && effects@.len() == 0
                } else {
                    &&& *final(self) == *old(self)
                    &&& effects@.len() == 1
                    &&& match spec_outcome(text@) {
                        Ok(t) => effects@[0] matches Effect::SendReporter(
                            PipeMessage::Result(out),
                        ) && out@ == t,
                        Err(t) => effects@[0] matches Effect::SendReporter(
                            PipeMessage::Error(out),
                        ) && out@ == t,
                    }
                },
                PipeMessage::Stop => final(self).stopped && effects@.len() == 0,
                _ => *final(self) == *old(self) && effects@.len() == 0,
            },
    {
        match msg {
            PipeMessage::Message(text) => {
                if self.stopped {
                    return Vec::new();
                }
                let reply = evaluate_line(text.as_str());
                let mut effects: Vec<Effect> = Vec::new();
                effects.push(Effect::SendReporter(reply));
                effects
            },
            PipeMessage::Stop => {
                self.stopped = true;
                Vec::new()
            },
            _ => Vec::new(),
        }
    }
}

/// The reporter actor: the terminal sink that turns `Result` and `Error`
/// messages into operator-visible lines, until `Stop` makes it terminal.
#[derive(PartialEq, Eq, Structural, Clone, Copy, Debug)]
pub struct OutActor {
    /// Whether `Stop` has made the reporter terminal.
    pub stopped: bool,
}

impl OutActor {
    /// A fresh reporter.
    pub fn new() -> (r: OutActor)
        ensures
            !r.stopped,
    {
        OutActor { stopped: false }
    }

    /// One message. A success line goes to the ordinary output channel, a
    /// failure description to the warning channel, each exactly once;
    /// `Stop` is terminal; everything else, and every message to a
    /// terminal reporter, is ignored. The reporter sends no messages.
    pub fn handle(&mut self, msg: PipeMessage) -> (effects: Vec<Effect>)
        ensures
            match msg {
                PipeMessage::Result(text) => if old(self).stopped {
                    *final(self) == *old(self) && effects@.len() == 0
                } else {
                    &&& *final(self) == *old(self)
                    &&& effects@.len() == 1
                    &&& (effects@[0] matches Effect::PrintLine(t) && t@ == text@)
                },
                PipeMessage::Error(text) => if old(self).stopped {
                    *final(self) == *old(self) && effects@.len() == 0
                } else {
                    &&& *final(self) == *old(self)
                    &&& effects@.len() == 1
                    &&& (effects@[0] matches Effect::PrintWarn(t) && t@ == text@)
                },
                PipeMessage::Stop => final(self).stopped && effects@.len() == 0,
                _ => *final(self) == *old(self) && effects@.len() == 0,
            },
    {
        match msg {
            PipeMessage::Result(text) => {
                if self.stopped {
                    return Vec::new();
                }
                let mut effects: Vec<Effect> = Vec::new();
                effects.push(Effect::PrintLine(text));
                effects
            },
            PipeMessage::Error(text) => {
                if self.stopped {
                    return Vec::new();
                }
                let mut effects: Vec<Effect> = Vec::new();
                effects.push(Effect::PrintWarn(text));
                effects
            },
            PipeMessage::Stop => {
                self.stopped = true;
                Vec::new()
            },
            _ => Vec::new(),
        }
    }
}

/// How many of a run's acquisitions were usable.
pub open spec fn usable_count(lines: Seq<Option<Seq<char>>>) -> nat
    decreases lines.len(),
{
    if lines.len() == 0 {
        0
    } else {
        usable_count(lines.drop_last()) + if is_usable_line(lines.last()) {
            1nat
        } else {
            0nat
        }
    }
}

/// A run of consecutive reader cycles over the acquired lines: the
/// attempt count after the run, and how many expression messages the
/// reader handed the calculator — one per cycle and one per usable line
/// respectively, as `TextReader::handle` guarantees of each single cycle.
pub open spec fn spec_reader_run(attempts: nat, lines: Seq<Option<Seq<char>>>) -> (nat, nat)
    decreases lines.len(),
{
    if lines.len() == 0 {
        (attempts, 0)
    } else {
        let prev = spec_reader_run(attempts, lines.drop_last());
        (
            prev.0 + 1,
            prev.1 + if is_usable_line(lines.last()) {
                1nat
            } else {
                0nat
            },
        )
    }
}

/// Re-arming is idempotent in the aggregate: after any number of
/// consecutive cycles, valid or invalid alike, the reader has made exactly
/// one acquisition attempt per cycle, and the calculator has been handed
/// exactly one expression message per usable acquisition.
pub proof fn lemma_rearm_counts(attempts: nat, lines: Seq<Option<Seq<char>>>)
    ensures
        spec_reader_run(attempts, lines).0 == attempts + lines.len(),
        spec_reader_run(attempts, lines).1 == usable_count(lines),
    decreases lines.len(),
{
    if lines.len() > 0 {
        lemma_rearm_counts(attempts, lines.drop_last());
    }
}

} // verus!
