[package]
name = "yral_multi_service"
version = "0.1.0"
edition = "2021"
publish = false

[dependencies]
candid = "0.10"
hex = "0.4"
hmac = "0.12"
sha2 = "0.10"
serde = { version = "1", features = ["derive"] }
serde_json = "1"
axum = "0.8"
tokio = { version = "1", features = ["rt-multi-thread", "macros"] }
reqwest = { version = "0.12", default-features = false, features = ["json"] }
redis = { version = "0.27", features = ["tokio-comp"] }
chrono = "0.4"
log = "0.4"
once_cell = "1"
thiserror = "2"
utoipa = "5"
utoipa-axum = "*"
web-time = "1"
