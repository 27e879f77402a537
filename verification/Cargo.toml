[package]
name = "phantom_pool"
version = "0.1.0"
edition = "2021"
publish = false

[dependencies]
anchor-lang = "=1.2.1"
anchor-spl = { version = "=1.2.1", default-features = false, features = ["token", "solana-v3"] }
