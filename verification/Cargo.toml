[package]
name = "trek"
version = "0.1.0"
edition = "2021"
publish = false

[dependencies]
path-tree = "*"
Inflector = "*"
