[package]
name = "grip"
version = "1.0.0"
edition = "2021"
publish = false

[dependencies]
regex = "*"
colored = "*"
clap = "*"
atty = "*"
walkdir = "*"
