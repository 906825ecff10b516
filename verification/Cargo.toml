[package]
name = "slot_session"
version = "0.1.0"
edition = "2021"
publish = false

[dependencies]
anyhow = "1"
axum = "*"
dirs = "*"
serde = { version = "1", features = ["derive"] }
serde_json = "1"
starknet = "0.9"
tokio = { version = "1", features = ["rt-multi-thread", "macros", "sync", "net"] }
tower-http = { version = "*", features = ["cors"] }
tracing = "0.1"
url = "2"
urlencoding = "2"
