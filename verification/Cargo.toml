[package]
name = "filters"
version = "0.1.0"
edition = "2021"
publish = false

[dependencies]
bit-set = "*"

[dev-dependencies]
rand = "0.8"
