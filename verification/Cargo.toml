[package]
name = "opencode2api"
version = "0.1.0"
edition = "2021"
publish = false

[dependencies]
reqwest = { version = "0.12", default-features = false, features = ["socks", "rustls-tls", "json", "stream"] }
serde = { version = "1", features = ["derive"] }
serde_json = "1"
unicode-width = "0.2"
httpdate = "1"
uuid = { version = "1", features = ["v4"] }
tokio = { version = "1", features = ["full"] }
axum = "0.7"
clap = { version = "4", features = ["derive"] }
anyhow = "1"
thiserror = "1"
yansi = "1"
futures-util = "0.3"
async-trait = "0.1"
async-stream = "0.3"
bytes = "1"
tracing = "0.1"
tracing-subscriber = "0.3"
