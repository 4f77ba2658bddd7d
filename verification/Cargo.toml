[package]
name = "starknet_live"
version = "0.1.0"
edition = "2021"
publish = false

[dependencies]
error-stack = "0.5"
futures = "0.3"
hex = "0.4"
prost = "0.13"
serde = { version = "1", features = ["derive"] }
serde_json = "1"
starknet-rust = "*"
tokio = { version = "1", features = ["net", "rt", "macros"] }
tokio-tungstenite = "*"
