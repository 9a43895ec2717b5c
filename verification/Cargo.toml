[package]
name = "neural-forge-layer"
version = "0.1.0"
edition = "2021"
publish = false

[dependencies]
ash = "0.37"
libc = "0.2"
png = "0.17"
