[package]
name = "meow_core"
version = "0.1.0"
edition = "2021"
publish = false

[dependencies]
async-trait = "0.1"
futures = "0.3"
smol_str = "0.3"
tokio = { version = "1", features = ["io-util", "net"] }
tracing = "0.1"
