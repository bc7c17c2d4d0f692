[package]
name = "expgstracker"
version = "0.1.0"
edition = "2021"
publish = false

[dependencies]
anyhow = "1"
audio = "0.2"
colored = "2"
cpal = "0.15"
crossterm = "0.28"
rand = "0.9"
tokio = { version = "1", features = ["time"] }
