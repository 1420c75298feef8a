[package]
name = "archive_sync"
version = "0.1.0"
edition = "2021"
publish = false

[dependencies]
anyhow = "1"
argh = "0.1"
flate2 = "1"
gitlab = "0.1210"
serde = { version = "1", features = ["derive"] }
serde_yaml = "0.8"
tar = "0.4"
