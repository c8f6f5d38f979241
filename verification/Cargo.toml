[package]
name = "huff_parser"
version = "0.1.0"
edition = "2021"
publish = false

[dependencies]
hex = "0.4"
huff_utils = "*"
tiny-keccak = { version = "2.0", features = ["keccak"] }
tracing = "0.1"
