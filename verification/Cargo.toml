[package]
name = "snake"
version = "0.1.0"
edition = "2021"
publish = false

[dependencies]
itertools = "*"
ggez = "0.5"
rand = "*"
