[package]
name = "kernellog"
version = "0.1.0"
edition = "2021"
publish = false

[dependencies]
clap = { version = "*", features = ["derive"] }
humantime = "*"
humantime-serde = "*"
serde = { version = "*", features = ["derive"] }
serde_json = "*"
