[package]
name = "syscity"
version = "0.1.0"
edition = "2021"
publish = false

[dependencies]
axum = "0.7"
base64 = "0.22"
chrono = "0.4"
rand = "0.8"
serde = { version = "1", features = ["derive"] }
serde_json = "1"
serde_norway = "0.9"
sha2 = "0.10"
tokio = { version = "1", features = ["fs", "io-util", "macros", "rt", "sync", "time"] }
toml = "0.8"
uuid = { version = "1", features = ["v4"] }
