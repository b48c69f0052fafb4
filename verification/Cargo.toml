[package]
name = "scalar_primitive"
version = "0.1.0"
edition = "2021"
publish = false

[dependencies]
base16ct = { version = "0.2", features = ["alloc"] }
rand_core = "0.6"
subtle = "2"
serdect = "0.2"
zeroize = "1"
