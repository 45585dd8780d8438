[package]
name = "gpt2omo"
version = "0.7.0"
edition = "2021"
publish = false

[dependencies]
anyhow = "1"
axum = "0.8"
cap-std = "3"
clap = { version = "4", features = ["derive", "env"] }
dunce = "1"
futures = "0.3"
hex = "0.4"
libc = "0.2"
reqwest = { version = "0.12", default-features = false, features = ["json", "stream"] }
serde = { version = "1", features = ["derive"] }
serde_json = "1"
sha2 = "0.10"
thiserror = "2"
tokio = { version = "1", features = ["full"] }
tokio-tungstenite = "0.26"
tower-http = { version = "0.6", features = ["cors"] }
tracing = "0.1"
tracing-subscriber = { version = "0.3", features = ["env-filter"] }
url = "2"
uuid = { version = "1", features = ["v4"] }
