[package]
name = "dora-openarm-actions-executor-rust"
version = "0.1.0"
edition = "2021"
publish = false

[dependencies]
arrow = { version = "=54.2.1", default-features = false }
eyre = "0.6"
