[package]
name = "raydvd"
version = "0.1.0"
edition = "2021"
publish = false

[dependencies]
clap = { version = "*", features = ["derive"] }
ksni = { version = "*", features = ["blocking"] }
raylib = "*"
