[package]
name = "parse_span"
version = "0.1.0"
edition = "2021"
publish = false

[dependencies]
nom = "8"
