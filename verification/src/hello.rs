//! The greeting actor: the smallest message handler of the family. It
//! holds no state; each message determines one line for the runtime to
//! print.

use vstd::prelude::*;

verus! {

/// The two greetings the actor understands.
#[derive(PartialEq, Eq, Debug)]
pub enum HelloMessage {
    SayHello,
    SayHelloTo(String),
}

/// The greeting actor itself; it has no state to carry.
#[derive(PartialEq, Eq, Structural, Clone, Copy, Debug)]
pub struct HelloActor;

impl HelloActor {
    /// The exact line one message asks the runtime to print.
    pub fn handle(msg: &HelloMessage) -> (r: String)
        ensures
            match msg {
                HelloMessage::SayHello => r@ == "Hello world!"@,
                HelloMessage::SayHelloTo(name) => r@ == "Hello, "@ + name@ + "!"@,
            },
    {
        match msg {
            HelloMessage::SayHello => String::from_str("Hello world!"),
            HelloMessage::SayHelloTo(name) => {
                let mut out = String::from_str("Hello, ");
                out.append(name.as_str());
                out.append("!");
                out
            },
        }
    }
}

} // verus!
