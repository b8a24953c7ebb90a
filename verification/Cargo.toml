[package]
name = "lifelogging"
version = "0.1.0"
edition = "2021"
publish = false

[dependencies]
axum = "0.7"
axum-server = "0.7"
chrono = "0.4"
config = { version = "0.14", default-features = false, features = ["toml"] }
cpal = "0.15"
dotenv = "0.15"
once_cell = "1"
serde = { version = "1", features = ["derive"] }
serde_json = "1"
tempfile = "3"
thiserror = "1"
tokio = { version = "1", features = ["full"] }
tracing = "0.1"
tracing-subscriber = "0.3"
