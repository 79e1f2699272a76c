[package]
name = "numfmt_tokens"
version = "0.1.0"
edition = "2021"
publish = false

[dependencies]
nom = "7.1.3"
