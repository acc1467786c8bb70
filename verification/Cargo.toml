[package]
name = "dynsat"
version = "0.1.0"
edition = "2021"
publish = false

[dependencies]
dirs = "*"
log = "*"
log-panics = "*"
simplelog = "*"
