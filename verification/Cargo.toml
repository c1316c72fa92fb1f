[package]
name = "rocket_core"
version = "0.1.0"
edition = "2021"
publish = false

[dependencies]
devise = "0.3"
quote = "1.0"
futures-util = "0.3"
tokio = "0.2"
hyper = { version = "0.13", default-features = false }
