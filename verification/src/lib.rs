//! An actor-style arithmetic pipeline: a reader acquires one line of text per
//! cycle, an evaluator tokenizes, parses and reduces it to a signed integer,
//! and a reporter renders the outcome. The expression grammar, the reducer,
//! the message contracts and each actor's decision logic live here, verified;
//! the surrounding runtime (scheduling, console I/O, timers) stays outside.

pub mod actors;
pub mod console;
pub mod expr;
pub mod hello;
pub mod laws;
pub mod lexer;
pub mod parser;
pub mod render;
