[package]
name = "streamies"
version = "0.1.0"
edition = "2021"
publish = false

[dependencies]
futures = "0.3"
futures-lite = "*"
pin-project-lite = "0.2"
