[package]
name = "torvpn_control"
version = "0.1.0"
edition = "2021"
publish = false

[dependencies]
anyhow = "1"
base64 = "0.22"
hex = "0.4"
pqcrypto-dilithium = "*"
pqcrypto-kyber = "0.8"
pqcrypto-traits = "*"
serde = { version = "1", features = ["derive"] }
serde_json = "1"
tokio = { version = "1", features = ["fs", "io-util", "macros", "net", "process", "rt-multi-thread", "time"] }
which = "*"
