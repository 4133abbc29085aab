[package]
name = "cave-runner"
version = "0.1.0"
edition = "2021"
publish = false

[dependencies]
rand = "0.8"
noise = { version = "0.8", default-features = false }
