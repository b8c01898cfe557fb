[package]
name = "pien"
version = "0.1.0"
edition = "2021"
publish = false

[dependencies]
rand = "=0.8.5"
noise = "0.9"
bevy_utils = "0.14"
bevy = { version = "0.14", default-features = false }
