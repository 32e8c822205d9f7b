[package]
name = "clipstash"
version = "0.1.0"
edition = "2021"
publish = false

[dependencies]
crossbeam-channel = "*"
rand = "*"
tokio = { version = "*", features = ["rt-multi-thread", "time"] }
