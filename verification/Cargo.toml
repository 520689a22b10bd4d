[package]
name = "blockbuster"
version = "0.1.0"
edition = "2021"
publish = false

[dependencies]
borsh = "=0.9.3"
mpl-token-metadata = { version = "=1.3.6", features = ["no-entrypoint"] }
plerkle_serialization = "*"
solana-sdk = "=1.14.29"
