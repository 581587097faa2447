[package]
name = "rusty_chat"
version = "0.1.0"
edition = "2021"
publish = false

[dependencies]
chrono = "=0.4.45"
cursive = "=0.21.1"
serde_json = "=1.0.154"
tokio = { version = "=1.54.1", features = ["full"] }
