[package]
name = "openfi_proto"
version = "0.1.0"
edition = "2021"
publish = false

[dependencies]
rand = "0.8"
mime_guess = "2"
serde = { version = "1", features = ["derive"] }
serde_json = "1"
tokio = { version = "1", features = ["full"] }
axum = "0.6"
axum-sessions = "0.5"
axum-client-ip = "0.4"
tower-http = { version = "0.4", features = ["cors", "fs"] }
tokio-util = { version = "0.7", features = ["io"] }
tokio-stream = "0.1"
futures = "0.3"
futures-util = "0.3"
chrono = "0.4"
dotenv = "0.15"
sea-orm = { version = "0.12", features = ["sqlx-sqlite", "runtime-tokio-rustls", "macros"] }
async-trait = "0.1"
