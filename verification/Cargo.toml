[package]
name = "ledger_cache"
version = "0.1.0"
edition = "2021"
publish = false

[dependencies]
sha3 = "*"
secp256k1 = "*"
futures = "*"
tokio = { version = "*", features = ["sync", "rt", "macros", "time"] }
