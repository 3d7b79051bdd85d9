[package]
name = "string_evolver"
version = "0.1.0"
edition = "2021"
publish = false

[dependencies]
anes = "*"
rand = "0.8"
