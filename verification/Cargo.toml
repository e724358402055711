[package]
name = "quantumfuse_core"
version = "0.1.0"
edition = "2021"
publish = false

[dependencies]
blake3 = "*"
hex = "*"
base58 = "*"
chrono = "*"
rand = "*"
uuid = { version = "*", features = ["v4"] }
pqcrypto-dilithium = "*"
pqcrypto-kyber = "*"
pqcrypto-traits = "*"
