[package]
name = "usercrud"
version = "0.1.0"
edition = "2021"
publish = false

[dependencies]
validator = "*"
serde = "*"
serde_derive = "*"
serde_json = "*"
axum = "*"
tokio = { version = "*", features = ["rt-multi-thread", "net", "macros"] }
chrono = "*"
dotenvy = "*"
tracing = "*"
tracing-subscriber = "*"
tracing-appender = "*"
