[package]
name = "rgbpp-lock"
version = "0.1.0"
edition = "2021"
publish = false

[dependencies]
ckb-std = "*"
sha2 = "0.10"
