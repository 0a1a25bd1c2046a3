[package]
name = "carbon_core"
version = "0.1.0"
edition = "2021"
publish = false

[dependencies]
bs58 = "=0.5.1"
log = "=0.4.34"
serde = { version = "=1.0.229", features = ["derive"] }
solana-account-decoder-client-types = "=2.3.13"
solana-sdk = "=2.3.1"
solana-transaction-status = "=2.3.13"
