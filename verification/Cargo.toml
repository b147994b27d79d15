[package]
name = "junta"
version = "0.1.0"
edition = "2021"
publish = false

[dependencies]
futures = "0.1"
serde = { version = "1", features = ["derive"] }
serde_cbor = "0.11"
serde_json = "1"
slog = "2"
tokio = "0.1"
uuid = { version = "0.8", features = ["v4"] }
websocket = { version = "0.26", default-features = false, features = ["async"] }
