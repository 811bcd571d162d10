[package]
name = "validator_history"
version = "0.1.0"
edition = "2021"
publish = false

[dependencies]
axum = "0.6"
tokio = { version = "1", features = ["macros", "rt-multi-thread"] }
borsh = "0.10"
static_assertions = "1"
