[package]
name = "poet"
version = "0.1.0"
edition = "2021"
publish = false

[dependencies]
kami = "*"
sfml = "*"
