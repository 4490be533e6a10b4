[package]
name = "scroll_filter"
version = "0.1.0"
edition = "2021"
publish = false

[dependencies]
rdev = { version = "*", features = ["unstable_grab"] }
serde = { version = "*", features = ["derive"] }
serde_json = "*"
tracing = "*"
tracing-appender = "*"
tracing-subscriber = "*"
