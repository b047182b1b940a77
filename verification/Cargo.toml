[package]
name = "stoilib"
version = "0.1.0"
edition = "2021"
publish = false

[dependencies]
num = "*"
dashmap = "*"
lazy_static = "*"
windowfunctions = "*"
rayon = "*"
