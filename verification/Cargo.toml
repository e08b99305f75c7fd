[package]
name = "skeptic"
version = "0.1.0"
edition = "2021"
publish = false

[dependencies]
bytecount = "*"
pulldown-cmark = "*"
glob = "*"
toml = "*"
