[package]
name = "connected_accounts"
version = "0.1.0"
edition = "2021"
publish = false

[dependencies]
ethabi = { version = "=18.0.0", default-features = false, features = ["std"] }
hex = { version = "=0.4.3", features = ["serde"] }
near-sdk = { version = "=5.29.1", features = ["unstable", "non-contract-usage"] }
