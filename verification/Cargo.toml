[package]
name = "dimension_parser"
version = "0.1.0"
edition = "2021"
publish = false

[dependencies]
image = "*"
yatima-rustyline = "*"
