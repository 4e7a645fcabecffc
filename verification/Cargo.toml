[package]
name = "mess"
version = "0.1.0"
edition = "2021"
publish = false

[dependencies]
ansi_term = "0.12"
chrono = "0.4"
directories = "*"
fuzzy-matcher = "0.3"
glob = "0.3"
structopt = "0.3"
