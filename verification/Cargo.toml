[package]
name = "mediadup"
version = "0.1.0"
edition = "2021"
publish = false

[dependencies]
ring = "*"
hex = "*"
img_hash = "3"
image = "0.23"
walkdir = "*"
clap = { version = "3", features = ["derive"] }
anyhow = "*"
