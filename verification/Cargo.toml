[package]
name = "score_messages"
version = "0.1.0"
edition = "2021"
publish = false

[dependencies]
futures-util = "0.3"
prost = "*"
serde = { version = "1", features = ["derive"] }
serde_json = "1"
tokio = { version = "1", features = ["full"] }
tokio-tungstenite = "*"
tracing = "0.1"
tracing-subscriber = "0.3"
uuid = { version = "1", features = ["v7"] }
