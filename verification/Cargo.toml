[package]
name = "lyraswap"
version = "0.1.0"
edition = "2021"
publish = false

[dependencies]
soroban-sdk = { version = "=23.5.3", features = ["alloc", "hazmat-address"] }
stellar-access = "=0.6.0"
stellar-tokens = "=0.6.0"
