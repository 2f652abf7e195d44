[package]
name = "headerchain"
version = "0.1.0"
edition = "2021"
publish = false

[dependencies]
parity-scale-codec = { version = "=1.3.5", features = ["derive"] }
frame-support = "=2.0.1"
frame-system = "=2.0.1"
sp-runtime = "=2.0.1"
sp-std = "=2.0.1"
