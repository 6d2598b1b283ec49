[package]
name = "talos"
version = "0.1.0"
edition = "2021"
publish = false

[dependencies]
argon2 = { version = "=0.5.3", features = ["std"] }
axum = { version = "=0.8.9", features = ["ws"] }
base64 = "=0.22.1"
btsensor = "=0.1.2"
dotenvy = "=0.15.7"
futures-util = "=0.3.34"
jsonwebtoken = "=9.3.1"
serde = { version = "=1.0.229", features = ["derive"] }
serde_json = { version = "=1.0.154", features = ["raw_value"] }
sqlx = { version = "=0.8.6", default-features = false, features = ["sqlite", "runtime-tokio", "macros", "migrate"] }
tokio = { version = "=1.54.1", features = ["full"] }
tokio-tungstenite = "=0.29.0"
tower-http = { version = "=0.6.11", features = ["cors", "trace", "fs"] }
tracing = "=0.1.44"
tracing-subscriber = { version = "=0.3.23", features = ["env-filter"] }
