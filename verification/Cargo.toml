[package]
name = "msg_transport"
version = "0.1.0"
edition = "2021"
publish = false

[dependencies]
fastrand = "2"
anyhow = "1"
async-channel = "1"
dashmap = "5"
quinn = "0.10"
rustls = "0.21"
tokio = { version = "1", features = ["full"] }
tokio-rustls = "0.24"
