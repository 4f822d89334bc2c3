[package]
name = "remittance"
version = "0.1.0"
edition = "2021"
publish = false

[dependencies]
hex = "*"
sp-core = "*"
sp-crypto-hashing = "*"
