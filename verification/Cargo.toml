[package]
name = "klatsch"
version = "0.1.0"
edition = "2021"
publish = false

[dependencies]
anyhow = "1"
async-sqlite = "*"
async-stream = "0.3"
axum = "0.8"
dotenv = "0.15"
futures-util = "0.3"
memory-serve = "*"
serde = { version = "1", features = ["derive"] }
tokio = { version = "1", features = ["macros", "net", "rt-multi-thread", "signal", "sync", "time"] }
tokio-stream = "0.1"
tracing = "0.1"
tracing-subscriber = { version = "0.3", features = ["env-filter"] }
uuid = { version = "1", features = ["serde"] }
