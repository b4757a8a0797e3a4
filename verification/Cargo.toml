[package]
name = "mastermind"
version = "0.1.0"
edition = "2021"
publish = false

[dependencies]
clap = { version = "4", features = ["derive"] }
itertools = "0.10"
rand = "0.8"
rocket = "0.5"
