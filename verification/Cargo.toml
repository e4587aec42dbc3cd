[package]
name = "controller_core"
version = "0.1.0"
edition = "2021"
publish = false

[dependencies]
infer = "*"
crossbeam-channel = "*"
image = "*"
petgraph = "*"
