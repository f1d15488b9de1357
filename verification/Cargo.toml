[package]
name = "typed_storage"
version = "0.1.0"
edition = "2021"
publish = false

[dependencies]
parity-scale-codec = "3"
sp-crypto-hashing = "*"
frame-metadata = { version = "*", features = ["legacy"] }
proc-macro2 = "1"
quote = "1"
syn = "2"
