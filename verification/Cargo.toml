[package]
name = "feynman"
version = "0.1.0"
edition = "2021"
publish = false

[dependencies]
anyhow = "=1.0.104"
async-trait = "=0.1.92"
chrono = "=0.4.45"
config = { version = "=0.14.1", default-features = false, features = ["toml"] }
fred = { version = "=9.4.0", default-features = false, features = ["i-std", "i-streams"] }
futures-util = "=0.3.34"
hex = "=0.4.3"
hmac = "=0.12.1"
reqwest = { version = "=0.12.28", default-features = false, features = ["json", "rustls-tls"] }
rmp-serde = "=1.3.1"
rusqlite = { version = "=0.31.0", features = ["bundled"] }
rust_decimal = { version = "=1.43.0", default-features = false, features = ["std", "serde"] }
secrecy = "=0.8.0"
serde = { version = "=1.0.229", features = ["derive"] }
serde_json = "=1.0.154"
sha2 = "=0.10.9"
thiserror = "=1.0.69"
tokio = { version = "=1.54.1", features = ["full"] }
tokio-tungstenite = { version = "=0.24.0", features = ["rustls-tls-webpki-roots"] }
tonic = { version = "=0.12.3", default-features = false, features = ["transport"] }
tonic-health = { version = "=0.12.3", default-features = false, features = ["transport"] }
tracing = "=0.1.44"
tracing-subscriber = { version = "=0.3.23", features = ["env-filter"] }
