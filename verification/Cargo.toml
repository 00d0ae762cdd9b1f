[package]
name = "tn_file_upload"
version = "0.1.0"
edition = "2021"
publish = false

[dependencies]
anyhow = "=1.0.104"
async-trait = "=0.1.92"
axum = { version = "=0.8.9", features = ["multipart"] }
bytes = "=1.12.1"
chrono = "=0.4.45"
hex = "=0.4.3"
prost = "=0.14.4"
serde = { version = "=1.0.229", features = ["derive"] }
serde_json = "=1.0.154"
sha2 = "=0.10.9"
subtle = "=2.6.1"
tokio = { version = "=1.54.1", features = ["full"] }
tokio-stream = { version = "=0.1.19", features = ["net"] }
tokio-util = { version = "=0.7.20", features = ["io"] }
tonic = "=0.14.9"
tonic-health = "=0.14.9"
tonic-prost = "=0.14.9"
tower-http = { version = "=0.6.11", features = ["cors", "trace"] }
tracing = "=0.1.44"
tracing-subscriber = { version = "=0.3.23", features = ["env-filter", "json"] }
uuid = { version = "=1.29.0", features = ["v7"] }
