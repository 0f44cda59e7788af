[package]
name = "trickshot"
version = "0.1.0"
edition = "2021"
publish = false

[dependencies]
anyhow = "=1.0.104"
async-channel = "=2.5.0"
axum = { version = "=0.8.9", default-features = false, features = ["http1", "query", "tokio", "tracing", "ws"] }
base64 = "=0.22.1"
chromiumoxide = "=0.9.1"
clap = { version = "=4.6.7", features = ["derive", "env"] }
futures = "=0.3.34"
futures-util = "=0.3.34"
notify = "=8.2.1"
rand = "=0.10.3"
reqwest = { version = "=0.12.28", default-features = false, features = ["json", "rustls-tls"] }
serde = { version = "=1.0.229", features = ["derive"] }
serde_json = "=1.0.154"
sha2 = "=0.10.9"
tokio = { version = "=1.54.1", features = ["full"] }
tokio-tungstenite = { version = "=0.24.0", features = ["rustls-tls-webpki-roots"] }
tower-http = { version = "=0.6.11", features = ["trace"] }
tracing = "=0.1.44"
tracing-subscriber = { version = "=0.3.23", features = ["env-filter"] }
url = "=2.5.8"
uuid = { version = "=1.29.0", features = ["v4"] }
