[package]
name = "openlogi_onboard"
version = "0.1.0"
edition = "2021"
publish = false

[dependencies]
anyhow = "1"
clap = { version = "4", features = ["derive"] }
serde = { version = "1", features = ["derive"] }
serde_json = "1"
succession = "*"
thiserror = "2"
tokio = { version = "1", features = ["rt", "sync", "time"] }
toml = "0.8"
tracing = "0.1"
