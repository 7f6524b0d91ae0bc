[package]
name = "homepage"
version = "1.0.0"
edition = "2021"
publish = false

[dependencies]
askama = "0.12"
async-trait = "0.1"
axum = "0.7"
axum-server = { version = "0.7", features = ["tls-rustls"] }
base64 = "0.22"
clap = { version = "4", features = ["derive"] }
futures = "0.3"
parking_lot = "0.12"
percent-encoding = "2"
rand = "0.8"
reqwest = { version = "0.12", default-features = false, features = ["rustls-tls", "json", "stream"] }
rustls = "0.23"
serde = { version = "1", features = ["derive"] }
serde_json = "1"
sha2 = "0.10"
thiserror = "2"
tokio = { version = "1", features = ["full"] }
tower-http = { version = "0.6", features = ["fs"] }
tracing = "0.1"
tracing-subscriber = { version = "0.3", features = ["env-filter"] }
turul-mcp-protocol = "0.3"
url = "2"
uuid = { version = "1", features = ["v4"] }
webauthn-rs = "0.5"
