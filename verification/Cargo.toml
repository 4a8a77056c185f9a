[package]
name = "responses_proxy"
version = "0.1.0"
edition = "2021"
publish = false

[dependencies]
serde_json = "*"
serde = { version = "*", features = ["derive"] }
log = "*"
chrono = "*"
axum = "*"
tokio = { version = "*", features = ["rt-multi-thread", "macros", "sync", "time"] }
tokio-stream = "*"
futures = "*"
reqwest = { version = "*", default-features = false, features = ["json", "stream"] }
