[package]
name = "genetic_algorithm_meta"
version = "0.1.0"
edition = "2021"
publish = false

[dependencies]
genetic_algorithm = "*"
rand = "*"
