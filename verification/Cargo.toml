[package]
name = "sparse_llt"
version = "0.1.0"
edition = "2021"
publish = false

[dependencies]
faer = "0.19"
dyn-stack = "0.10"
extendr-api = "*"
