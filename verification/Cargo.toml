[package]
name = "cargo_bundle"
version = "0.1.0"
edition = "2021"
publish = false

[dependencies]
anyhow = "1"
resvg = "*"
winres-edit = "*"
