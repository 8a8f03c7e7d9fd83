[package]
name = "chacha20_ietf"
version = "0.1.0"
edition = "2021"
publish = false

[dependencies]
crypto_api = "*"
