[package]
name = "fterm"
version = "0.1.0"
edition = "2021"
publish = false

[dependencies]
anyhow = "1"
chrono = "0.4"
flate2 = "1"
walkdir = "2"
