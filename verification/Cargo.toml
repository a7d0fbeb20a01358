[package]
name = "monopoly"
version = "0.1.0"
edition = "2021"
publish = false

[dependencies]
rand = "0.8"
serde_json = "1"
itertools = "0.12"
