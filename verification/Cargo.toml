[package]
name = "icpad"
version = "0.1.0"
edition = "2021"
publish = false

[dependencies]
candid = "0.10"
ic-cdk = "0.18"
ic-cdk-macros = "0.18"
ic-cdk-timers = "0.12"
num-traits = "0.2"
serde = { version = "1", features = ["derive"] }
serde_json = "1"
