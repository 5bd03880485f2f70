[package]
name = "trivia_core"
version = "0.1.0"
edition = "2021"
publish = false

[dependencies]
rand = "0.9"
tokio = { version = "1", features = ["rt-multi-thread", "macros", "net", "sync", "time"] }
tokio-tungstenite = "*"
futures-util = "0.3"
serde = { version = "1", features = ["derive"] }
serde_json = "1"
log = "0.4"
env_logger = "*"
dotenvy = "*"
axum = "*"
tower-http = { version = "*", features = ["cors"] }
anyhow = "1"
jsonwebtoken = "*"
reqwest = { version = "*", default-features = false, features = ["blocking", "json", "rustls-tls"] }
aws-config = "*"
aws-sdk-s3 = "*"
