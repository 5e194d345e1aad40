[package]
name = "tracing-indicatif"
version = "0.1.0"
edition = "2021"
publish = false

[dependencies]
indicatif = { version = "*", features = ["in_memory"] }
tracing = "0.1"
tracing-core = "0.1"
tracing-subscriber = "0.3"
