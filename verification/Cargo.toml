[package]
name = "fast_qr"
version = "0.1.0"
edition = "2021"
publish = false

[dependencies]
resvg = "0.29"
