[package]
name = "corp"
version = "0.1.0"
edition = "2021"
publish = false

[dependencies]
bcrypt = "=0.19.3"
uuid = { version = "=1.29.1", features = ["v4"] }
chrono = "=0.4.45"
tokio = { version = "=1.54.1", features = ["full"] }
tokio-util = "=0.7.20"
axum = "=0.8.9"
sqlx = { version = "=0.9.0", default-features = false, features = ["runtime-tokio", "sqlite", "chrono"] }
tower-http = { version = "=0.7.1", features = ["cors"] }
tracing = "=0.1.44"
tracing-subscriber = "=0.3.23"
anyhow = "=1.0.104"
log = "=0.4.35"
env_logger = "=0.11.11"
serde = { version = "=1.0.229", features = ["derive"] }
wtransport = { version = "=0.7.2", features = ["dangerous-configuration"] }
rand = "=0.10.3"
