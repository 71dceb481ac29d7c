[package]
name = "gprepo"
version = "0.1.0"
edition = "2021"
publish = false

[dependencies]
globset = "*"
anyhow = "*"
clap = "*"
walkdir = "*"
git2 = { version = "*", default-features = false }
