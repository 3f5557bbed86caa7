[package]
name = "amp_bridge"
version = "0.1.0"
edition = "2021"
publish = false

[dependencies]
hyper = "0.14"
tokio = { version = "1", features = ["sync"] }
bytes = "1"
