[package]
name = "ld"
version = "0.1.0"
edition = "2021"
publish = false

[dependencies]
chrono = "*"
terminal_size = "*"
clap = { version = "*", features = ["derive"] }
