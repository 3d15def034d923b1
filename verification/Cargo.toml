[package]
name = "blackfast"
version = "0.1.0"
edition = "2021"
publish = false

[dependencies]
appdirs = "*"
serde_json = "1"
