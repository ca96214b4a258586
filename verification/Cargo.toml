[package]
name = "machammer"
version = "0.1.0"
edition = "2021"
publish = false

[dependencies]
pnet = "*"
rand = "0.8"
