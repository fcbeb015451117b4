[package]
name = "zkp_message_sender"
version = "0.1.0"
edition = "2021"
publish = false

[dependencies]
serde = { version = "*", features = ["derive"] }
serde_json = "*"
tokio = { version = "*", features = ["full"] }
jsonrpsee = { version = "*", features = ["http-client"] }
