[package]
name = "compose_taffy"
version = "0.1.0"
edition = "2021"
publish = false

[dependencies]
taffy = "*"
compose-rt = "*"
