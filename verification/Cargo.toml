[package]
name = "actor_calc"
version = "0.1.0"
edition = "2021"
publish = false

[dependencies]
ractor = "*"
tokio = { version = "*", features = ["macros", "rt-multi-thread", "time"] }
tracing = "*"
tracing-subscriber = "*"
