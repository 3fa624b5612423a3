[package]
name = "iamthat"
version = "0.1.0"
edition = "2021"
publish = false

[dependencies]
serde = { version = "1", features = ["derive"] }
serde_json = "1"
camino = { version = "1", features = ["serde1"] }
clap = { version = "4", features = ["derive"] }
eyre = "0.6"
schemars = "0.8"
tracing = "0.1"
tracing-subscriber = { version = "0.3", features = ["json"] }
