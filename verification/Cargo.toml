[package]
name = "echo"
version = "0.1.0"
edition = "2021"
publish = false

[dependencies]
which = "=7.0.3"
hound = "=3.5.1"
cpal = "=0.15.3"
serde = { version = "=1.0.229", features = ["derive"] }
serde_json = "=1.0.154"
tokio = { version = "=1.54.1", features = ["full"] }
reqwest = { version = "=0.12.28", features = ["multipart"] }
