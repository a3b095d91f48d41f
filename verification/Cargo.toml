[package]
name = "movelite"
version = "0.1.0"
edition = "2021"
publish = false

[dependencies]
anyhow = "1"
axum = "0.7"
bcs = "0.1"
hex = "0.4"
move-core-types = "0.0.3"
serde = { version = "1", features = ["derive"] }
serde_json = "1"
tokio = { version = "1", features = ["rt-multi-thread", "net", "macros"] }
tower = { version = "0.5", features = ["timeout", "limit", "util"] }
url = "2"
urlencoding = "2"
