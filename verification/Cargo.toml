[package]
name = "musig_adaptor"
version = "0.1.0"
edition = "2021"
publish = false

[dependencies]
curv-kzen = "*"
sha2 = "*"
