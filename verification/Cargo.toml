[package]
name = "file_uploader"
version = "0.1.0"
edition = "2021"
publish = false

[dependencies]
anyhow = "1"
askama = "*"
axum = { version = "0.8", features = ["multipart"] }
clap = { version = "4", features = ["derive"] }
fs2 = "0.4"
log = "0.4"
serde = { version = "1", features = ["derive"] }
thiserror = "*"
tokio = { version = "1", features = ["full"] }
tokio-util = { version = "0.7", features = ["io"] }
