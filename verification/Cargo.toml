[package]
name = "rasen"
version = "0.1.0"
edition = "2021"
publish = false

[dependencies]
petgraph = "*"
proc-macro2 = "1"
quote = "1"
