[package]
name = "pixterm"
version = "0.1.0"
edition = "2021"
publish = false

[dependencies]
ansipix = "*"
clap = { version = "*", features = ["derive"] }
image = "*"
