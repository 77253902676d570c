[package]
name = "account_authenticator"
version = "0.1.0"
edition = "2021"
publish = false

[dependencies]
ed25519-dalek = "*"
sha3 = "*"
hex = "=0.4.3"
rand = "=0.8.8"
