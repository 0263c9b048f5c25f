[package]
name = "auto_discovery"
version = "0.1.0"
edition = "2021"
publish = false

[dependencies]
uuid = { version = "*", features = ["v4"] }
chrono = "*"
mdns-sd = "*"
tokio = { version = "*", features = ["net", "sync", "time", "rt", "macros"] }
