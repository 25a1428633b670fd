[package]
name = "csvcat"
version = "0.1.0"
edition = "2021"
publish = false

[dependencies]
anyhow = "=1.0.104"
clap = { version = "=4.6.7", features = ["derive"] }
crossterm = "=0.29.0"
csv = "=1.4.0"
memmap2 = "=0.9.12"
unicode-width = "=0.1.11"
