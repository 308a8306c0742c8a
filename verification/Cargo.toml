[package]
name = "thumbor"
version = "0.1.0"
edition = "2021"
publish = false

[dependencies]
anyhow = "1"
axum = "0.7"
base64 = "0.22"
bytes = "1"
image = "0.24"
lazy_static = "1"
listenfd = "1"
lru = "0.12"
percent-encoding = "2"
photon-rs = "0.3.2"
reqwest = { version = "0.12", default-features = false, features = ["rustls-tls"] }
serde = { version = "1", features = ["derive"] }
tokio = { version = "1", features = ["full"] }
tower = "0.4"
tower-http = { version = "0.5", features = ["add-extension"] }
tracing = "0.1"
tracing-subscriber = "0.3"
