[package]
name = "historic_decode"
version = "0.1.0"
edition = "2021"
publish = false

[dependencies]
anyhow = "*"
clap = { version = "*", features = ["derive"] }
frame-metadata = { version = "*", features = ["legacy", "decode", "serde_full"] }
hex = "*"
parity-scale-codec = "*"
scale-info = "*"
scale-info-legacy = "*"
scale-type-resolver = "*"
scale-value = "*"
serde = { version = "*", features = ["derive"] }
serde_json = "*"
serde_yaml = "*"
sp-crypto-hashing = "*"
subxt = "*"
tokio = { version = "*", features = ["rt-multi-thread", "macros", "sync"] }
