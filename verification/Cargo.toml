[package]
name = "opus_stream"
version = "0.1.0"
edition = "2021"
publish = false

[dependencies]
xml-rs = "*"
flate2 = "*"
walkdir = "*"
