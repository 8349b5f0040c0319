[package]
name = "styx"
version = "0.1.0"
edition = "2021"
publish = false

[dependencies]
cpal = "*"
opus = "*"
socket2 = "*"
serde = { version = "*", features = ["derive"] }
tokio = { version = "*", features = ["net", "rt", "rt-multi-thread", "time", "sync", "macros"] }
