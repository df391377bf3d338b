[package]
name = "drift"
version = "0.1.0"
edition = "2021"
publish = false

[dependencies]
sha2 = "*"
uuid = { version = "*", features = ["v4"] }
chrono = "*"
base64 = "*"
serde = { version = "*", features = ["derive"] }
serde_json = "*"
toml = "*"
clap = { version = "*", features = ["derive"] }
anyhow = "*"
axum = "*"
tokio = { version = "*", features = ["full"] }
jsonwebtoken = "*"
