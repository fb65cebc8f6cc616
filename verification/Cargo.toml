[package]
name = "shapalizer"
version = "0.1.0"
edition = "2021"
publish = false

[dependencies]
anyhow = "1"
clap = "2"
image = "0.25"
imageproc = "0.25"
rand = "0.8"
