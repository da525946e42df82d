[package]
name = "stellar-router"
version = "0.1.0"
edition = "2021"
publish = false

[dependencies]
anyhow = "1"
axum = { version = "0.7", features = ["ws"] }
dashmap = "5"
futures-util = "0.3"
prometheus = { version = "0.13", default-features = false }
reqwest = { version = "0.12", default-features = false, features = ["json", "rustls-tls"] }
serde = { version = "1", features = ["derive"] }
serde_json = "1"
soroban-sdk = "29"
tokio = { version = "1", features = ["sync", "time", "macros", "rt"] }
tracing = "0.1"
