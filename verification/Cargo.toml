[package]
name = "tenkai"
version = "0.1.0"
edition = "2021"
publish = false

[dependencies]
anyhow = "=1.0.104"
base64 = "=0.22.1"
chrono = { version = "=0.4.45", default-features = false, features = ["std", "clock"] }
chrono-tz = "=0.10.4"
ed25519-dalek = "=2.2.0"
libc = "=0.2.191"
reqwest = { version = "=0.12.28", default-features = false, features = ["blocking"] }
semver = "=1.0.28"
serde = { version = "=1.0.229", features = ["derive"] }
serde_json = "=1.0.154"
sha2 = "=0.10.9"
thiserror = "=2.0.21"
tokio = { version = "=1.54.1", features = ["io-util", "macros", "process", "rt", "signal", "sync", "time"] }
toml = "=0.8.23"
uuid = { version = "=1.29.0", features = ["v4"] }
