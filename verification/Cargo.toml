[package]
name = "frontlight_auto"
version = "0.1.0"
edition = "2021"
publish = false

[dependencies]
chrono = "0.4"
sunrise = "*"
portable-pty = "*"
anyhow = "1"
tracing = "0.1"
