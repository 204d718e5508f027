[package]
name = "sensorem"
version = "1.0.0"
edition = "2021"
publish = false

[dependencies]
anyhow = "1"
clap = "2"
colored = "=2.2.0"
crossterm = "=0.29.0"
sensors = "=0.2.2"
