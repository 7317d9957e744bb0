[package]
name = "rusp"
version = "0.1.0"
edition = "2021"
publish = false

[dependencies]
byteorder = "1"
codespan-reporting = "0.11"
