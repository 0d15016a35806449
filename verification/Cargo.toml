[package]
name = "rure"
version = "0.1.0"
edition = "2021"
publish = false

[dependencies]
regex = "=0.2.11"
libc = "=0.2.191"
