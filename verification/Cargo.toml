[package]
name = "pepe"
version = "0.1.0"
edition = "2021"
publish = false

[dependencies]
async-trait = "*"
chrono = "=0.4.45"
chrono-tz = "=0.10.4"
serde = { version = "*", features = ["derive"] }
serde_json = "*"
reqwest = { version = "*", default-features = false }
tokio = { version = "*", features = ["full"] }
clap = { version = "*", features = ["derive"] }
tracing = "*"
tracing-subscriber = "*"
ezsockets = { version = "=0.7.2", features = ["tungstenite"] }
