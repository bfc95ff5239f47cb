[package]
name = "lc3_language_server"
version = "0.1.0"
edition = "2021"
publish = false

[dependencies]
colored = "*"
