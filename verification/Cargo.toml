[package]
name = "ndef"
version = "0.1.0"
edition = "2021"
publish = false

[dev-dependencies]
hex = "*"
