[package]
name = "syncdir"
version = "0.1.0"
edition = "2021"
publish = false

[dependencies]
blake3 = "1"
tracing = "0.1"
tracing-subscriber = "0.3"
tray-icon = "*"
winit = "0.29"
