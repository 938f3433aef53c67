[package]
name = "skw"
version = "0.1.0"
edition = "2021"
publish = false

[dependencies]
serde = { version = "=1.0.229", features = ["derive"] }
serde_json = "=1.0.154"
thiserror = "=2.0.21"
iggy = "=0.11.0"
lapin = { version = "=4.12.3", default-features = false }
redis = { version = "=1.8.1", default-features = false, features = ["tokio-comp", "connection-manager"] }
reqwest = { version = "=0.13.5", default-features = false }
axum = { version = "=0.8.9", default-features = false, features = ["json"] }
chrono = { version = "=0.4.45", default-features = false, features = ["clock"] }
log = "=0.4.35"
env_logger = { version = "=0.11.11", default-features = false }
futures-util = { version = "=0.3.34", default-features = false }
bytes = "=1.12.1"
strum = { version = "=0.28.0", features = ["derive"] }
strum_macros = "=0.28.0"
base64 = "=0.23.1"
uuid = "=1.29.0"
