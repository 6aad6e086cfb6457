[package]
name = "eris_store"
version = "0.1.0"
edition = "2021"
publish = false

[dependencies]
base32 = "*"
clap = "*"
eris-rs = "*"
