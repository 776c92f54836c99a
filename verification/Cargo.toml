[package]
name = "input_capture"
version = "0.1.0"
edition = "2021"
publish = false

[dependencies]
base64 = "0.22"
solana-program = "2.0"
solana-sdk = "2.0"
