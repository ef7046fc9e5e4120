[package]
name = "faststats-rs"
version = "0.1.0"
edition = "2021"
publish = false

[dependencies]
crossterm = "0.29"
flate2 = "1"
log = "0.4"
os_info = "3"
regex = "1"
reqwest = { version = "0.12", default-features = false, features = ["rustls-tls", "http2", "charset"] }
serde = { version = "1", features = ["derive"] }
serde_json = "1"
thiserror = "2"
tokio = { version = "1", features = ["rt-multi-thread", "time", "sync", "macros"] }
uuid = { version = "1", features = ["v4"] }
