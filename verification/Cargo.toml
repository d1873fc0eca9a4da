[package]
name = "authcore"
version = "0.1.0"
edition = "2021"
publish = false

[dependencies]
bcrypt = "=0.19.3"
jsonwebtoken = { version = "=11.1.0", features = ["rust_crypto"] }
chrono = "=0.4.45"
serde = { version = "*", features = ["derive"] }
serde_json = "=1.0.151"
axum = { version = "*", features = ["ws"] }
tokio = { version = "*", features = ["rt-multi-thread", "macros", "net"] }
tower-http = { version = "*", features = ["cors", "trace"] }
arangors = "*"
log = "*"
env_logger = "*"
dotenvy = "*"
