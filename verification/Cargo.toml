[package]
name = "matrix-sdk-rtc-livekit"
version = "0.1.0"
edition = "2021"
publish = false

[dependencies]
async-trait = "0.1"
base64 = "=0.22.1"
futures-util = "0.3"
livekit = "0.7"
rand = "=0.8.8"
reqwest = { version = "0.12", default-features = false, features = ["json"] }
ruma = { version = "0.14", features = ["client-api-c", "events", "unstable-msc3401", "unstable-msc4075", "unstable-msc4310"] }
serde = { version = "1", features = ["derive"] }
serde_json = "=1.0.154"
thiserror = "2"
tokio = { version = "1", features = ["rt", "sync"] }
tracing = "0.1"
url = "=2.5.8"
