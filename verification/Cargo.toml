[package]
name = "rome_sdk"
version = "0.1.0"
edition = "2021"
publish = false

[dependencies]
async-trait = "0.1"
futures-util = "0.3"
hex = "0.4"
rand = "0.8"
solana-sdk = "=1.18.26"
solana-transaction-status = "=1.18.26"
tokio = { version = "1", features = ["rt", "sync", "time"] }
tracing = "0.1"
