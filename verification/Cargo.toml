[package]
name = "incdec"
version = "0.1.0"
edition = "2021"
publish = false

[dependencies]
memchr = "2"
anyhow = "1"
async-std = { version = "1", features = ["attributes"] }
lazy_static = "1"
prometheus = "0.13"
tide = "0.16"
tide-websockets = "0.4"
