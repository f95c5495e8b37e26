[package]
name = "docsync"
version = "0.1.0"
edition = "2021"
publish = false

[dependencies]
yrs = "*"
rand = "*"
anyhow = "*"
async-trait = "*"
parking_lot = "*"
serde = { version = "*", features = ["derive"] }
serde_json = "*"
thiserror = "*"
tokio = { version = "*", features = ["sync", "rt", "macros", "time", "rt-multi-thread"] }
tokio-stream = { version = "*", features = ["sync"] }
tokio-tungstenite = { version = "*", default-features = false }
tracing = "*"
