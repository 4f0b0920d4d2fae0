[package]
name = "hashpower"
version = "0.1.0"
edition = "2021"
publish = false

[dependencies]
parity-scale-codec = "*"
sp-runtime = "*"
sp-core = "*"
sp-crypto-hashing = "*"
frame-support = "*"
frame-system = "*"
