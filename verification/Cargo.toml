[package]
name = "ac"
version = "0.1.0"
edition = "2021"
publish = false

[dependencies]
clap = "2"
colored = "*"
git-url-parse = "=0.4.6"
thiserror = "*"
walkdir = "*"
