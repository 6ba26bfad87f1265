[package]
name = "fstring_rewrite"
version = "0.1.0"
edition = "2021"
publish = false

[dependencies]
rustpython-parser = "=0.1.2"
