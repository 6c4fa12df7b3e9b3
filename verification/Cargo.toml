[package]
name = "markedly"
version = "0.1.0"
edition = "2021"
publish = false

[dependencies]
rlua = "*"
metrohash = "*"
nalgebra = "*"
palette = "*"
lyon = "*"
