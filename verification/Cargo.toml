[package]
name = "perlinrs"
version = "0.1.0"
edition = "2021"
publish = false

[dependencies]
ndarray = "*"
ndarray-stats = "*"
palette = "0.6"
