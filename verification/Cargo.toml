[package]
name = "conversion_tracker"
version = "0.1.0"
edition = "2021"
publish = false

[dependencies]
peppi = "=1.0.0-alpha.6"
