[package]
name = "sms_forwarder"
version = "0.1.0"
edition = "2021"
publish = false

[dependencies]
aes = "=0.8.4"
cbc = { version = "=0.1.2", features = ["std"] }
cipher = { version = "=0.4.4", features = ["block-padding", "alloc"] }
base64 = "=0.23.1"
percent-encoding = "=2.3.2"
serde = { version = "*", features = ["derive"] }
serde_json = "*"
reqwest = { version = "*", default-features = false }
tokio = { version = "*", features = ["rt-multi-thread", "macros", "time", "io-util", "net", "sync"] }
tokio-serial = "*"
axum = "*"
tracing = "*"
tracing-subscriber = { version = "*", features = ["env-filter"] }
anyhow = "*"
