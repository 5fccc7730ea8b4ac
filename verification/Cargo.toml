[package]
name = "h2_sans_io"
version = "0.1.0"
edition = "2021"
publish = false

[dependencies]
fluke-hpack = "*"
