[package]
name = "lsat"
version = "0.1.0"
edition = "2021"
publish = false

[dependencies]
hex = "*"
macaroon = "*"
lightning = "*"
rocket = "*"
