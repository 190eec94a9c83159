[package]
name = "scones"
version = "0.1.0"
edition = "2021"
publish = false

[dependencies]
scraper = "*"
url = "*"
axum = { version = "*", features = ["multipart"] }
tokio = { version = "*", features = ["full"] }
reqwest = { version = "*", default-features = false, features = ["rustls-tls", "json"] }
tower-http = { version = "*", features = ["fs"] }
serde = { version = "*", features = ["derive"] }
csv = "*"
chrono = { version = "*", features = ["serde"] }
tracing = "*"
tracing-appender = "*"
tracing-subscriber = "*"
