[package]
name = "spacetaxi"
version = "0.1.0"
edition = "2021"
publish = false

[dependencies]
argon2 = "=0.5.3"
axum = { version = "=0.8.9", features = ["multipart"] }
base64 = "=0.22.1"
bytes = "=1.12.1"
chacha20poly1305 = "=0.10.1"
clap = { version = "=4.6.7", features = ["derive"] }
futures = "=0.3.34"
indicatif = "=0.17.11"
rand = "=0.8.8"
reqwest = { version = "=0.12.28", default-features = false, features = ["json", "multipart", "rustls-tls"] }
serde = { version = "=1.0.229", features = ["derive"] }
serde_json = "=1.0.154"
sqlx = { version = "=0.8.6", default-features = false, features = ["runtime-tokio", "sqlite"] }
thiserror = "=2.0.21"
tokio = { version = "=1.54.1", features = ["full"] }
tower-http = { version = "=0.6.11", features = ["cors"] }
tracing = "=0.1.44"
tracing-subscriber = { version = "=0.3.23", features = ["env-filter"] }
uuid = { version = "=1.29.0", features = ["v4"] }
