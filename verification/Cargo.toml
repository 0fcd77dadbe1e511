[package]
name = "stable_protocol"
version = "0.1.0"
edition = "2021"
publish = false

[dependencies]
num-integer = { version = "0.1", default-features = false }
soroban-sdk = "21"
