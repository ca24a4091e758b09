[package]
name = "aurasync"
version = "0.1.0"
edition = "2021"
publish = false

[dependencies]
blake3 = "*"
dashmap = "*"
notify = "*"
tokio = { version = "*", features = ["full"] }
