[package]
name = "sitcom"
version = "0.1.0"
edition = "2021"
publish = false

[dependencies]
parity-codec = "=3.5.4"
sp-runtime = "*"
frame-support = "*"
frame-system = "*"
