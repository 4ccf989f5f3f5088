[package]
name = "rqmap"
version = "0.1.0"
edition = "2021"
publish = false

[dependencies]
bio = "*"
bio-types = "*"
rust-htslib = "*"
itertools = "*"
linear-map = "*"
