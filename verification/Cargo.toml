[package]
name = "morse"
version = "0.1.0"
edition = "2021"
publish = false

[dependencies]
clap = { version = "4", features = ["derive"] }
rodio = { version = "0.20", default-features = false }
