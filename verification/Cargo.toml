[package]
name = "audiocast"
version = "0.1.0"
edition = "2021"
publish = false

[dependencies]
uuid = { version = "=1.27.0", features = ["v4"] }
tokio = { version = "=1.53.2", features = ["full"] }
axum = "=0.8.9"
serde = { version = "=1.0.229", features = ["derive"] }
serde_json = "=1.0.151"
sqlx = { version = "=0.9.0", default-features = false, features = ["runtime-tokio", "tls-rustls", "postgres"] }
reqwest = { version = "=0.12.28", default-features = false, features = ["json", "rustls-tls"] }
aws-config = "=1.12.0"
aws-sdk-s3 = "=1.152.0"
webrtc = "=0.21.0"
rtc = "=0.21.0"
bytes = "*"
tower = "=0.5.3"
tower-cookies = "=0.11.0"
tower-http = { version = "=0.6.11", features = ["fs", "cors"] }
dotenvy = "=0.15.7"
futures = "=0.3.34"
tokio-stream = "=0.1.19"
async-stream = "=0.3.6"
async-trait = "=0.1.92"
