[package]
name = "speedy_refs"
version = "0.1.0"
edition = "2021"
publish = false

[dependencies]
num-format = "0.4"
serde = "1"
