[package]
name = "tg_check"
version = "0.1.0"
edition = "2021"
publish = false

[dependencies]
cipher = "0.4"
rand = "0.9"
tokio = { version = "1", features = ["io-util", "net", "time"] }
