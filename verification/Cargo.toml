[package]
name = "streamhead"
version = "0.1.0"
edition = "2021"
publish = false

[dependencies]
rml_rtmp = "*"
h264-reader = "*"
bytes = "*"
tokio = { version = "*", features = ["rt-multi-thread", "net", "io-util", "sync", "macros", "time"] }
anyhow = "*"
