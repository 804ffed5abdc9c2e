[package]
name = "dfsph"
version = "0.1.0"
edition = "2021"
publish = false

[dependencies]
rayon = "1"
glam = "*"
rand = "0.9"
