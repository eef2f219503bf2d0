[package]
name = "llm_gateway"
version = "0.1.0"
edition = "2021"
publish = false

[dependencies]
regex = "*"
serde_json = "*"
serde = { version = "*", features = ["derive"] }
tokio = { version = "*", features = ["sync", "time", "rt"] }
futures = "*"
eventsource-stream = "*"
bytes = "*"
http = "*"
