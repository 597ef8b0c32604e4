[package]
name = "wa_bridge"
version = "0.1.0"
edition = "2021"
publish = false

[dependencies]
base64 = "*"
sha2 = "*"
uuid = { version = "*", features = ["v4"] }
tokio = { version = "*", features = ["rt-multi-thread", "macros", "process", "io-util", "sync", "time", "signal"] }
