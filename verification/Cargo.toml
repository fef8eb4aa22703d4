[package]
name = "transaction_context"
version = "0.1.0"
edition = "2021"
publish = false

[dependencies]
solana-account = "=5.1.0"
solana-instructions-sysvar = "=5.0.0"
solana-pubkey = "=4.4.0"
solana-rent = "=4.5.0"
solana-sbpf = "=0.25.0"
solana-sdk-ids = "=3.1.0"
bincode = "=1.3.3"
serde = "=1.0.229"
serde_derive = "=1.0.229"
