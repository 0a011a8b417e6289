[package]
name = "framepipe"
version = "0.1.0"
edition = "2021"
publish = false

[dependencies]
anyhow = "1"
bastion = "0.4"
tokio = { version = "1", features = ["full"] }
tracing = "0.1"
tracing-subscriber = "0.3"
