[package]
name = "arrayify"
version = "0.2.1"
edition = "2021"
publish = false

[dependencies]
chrono = "0.4"
clap = { version = "4", features = ["derive"] }
csv = "1"
regex = "1"
