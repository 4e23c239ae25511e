[package]
name = "synctools"
version = "0.1.0"
edition = "2021"
publish = false

[dependencies]
blake3 = "1"
regex = "1"
chrono = "0.4"
serde_json = "1"
uuid = { version = "1", features = ["v4"] }
serde = { version = "1", features = ["derive"] }
anyhow = "1"
async-trait = "0.1"
futures = "0.3"
tokio = { version = "1", features = ["full"] }
tokio-util = { version = "0.7", features = ["io"] }
bytes = "1"
walkdir = "2"
opendal = { version = "0.50", features = ["services-s3", "services-webdav"] }
reqwest = { version = "0.12", default-features = false, features = ["stream", "rustls-tls"] }
sqlx = { version = "0.8", default-features = false, features = ["sqlite", "runtime-tokio", "macros"] }
