[package]
name = "service"
version = "0.1.0"
edition = "2021"
publish = false

[dependencies]
hyper = { version = "=0.14.32", features = ["full"] }
tokio = { version = "=1.53.2", features = ["full"] }
futures = "=0.3.34"
hyper-tungstenite = "=0.9.0"
dotenv = "=0.15.0"
tracing = "0.1"
tracing-forest = { version = "=0.1.6", features = ["tokio"] }
tracing-subscriber = "0.3"

[dev-dependencies]
serde_json = "=1.0.151"
