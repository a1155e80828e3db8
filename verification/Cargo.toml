[package]
name = "acheron_daemon"
version = "0.1.0"
edition = "2021"
publish = false

[dependencies]
evdev = "0.13"
tokio = { version = "1", features = ["sync", "time", "rt", "macros"] }
tokio-util = "0.7"
