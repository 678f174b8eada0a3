[package]
name = "isobmff_syntax"
version = "0.1.0"
edition = "2021"
publish = false

[dependencies]
byteorder = "1"
mp4ra-rust = "*"
