[package]
name = "transferhook"
version = "0.1.0"
edition = "2021"
publish = false

[dependencies]
solana-program = "=5.1.0"
solana-system-interface = { version = "=3.3.0", features = ["bincode"] }
spl-token-2022 = { version = "=11.1.0", features = ["no-entrypoint"] }
spl-transfer-hook-interface = "=2.1.0"
