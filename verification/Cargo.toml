[package]
name = "strictfix"
version = "0.1.0"
edition = "2021"
publish = false

[dependencies]
memchr = "2"
rust-crypto = "0.2.36"
walkdir = "2"
