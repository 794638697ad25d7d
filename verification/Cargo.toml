[package]
name = "smix"
version = "0.1.0"
edition = "2021"
publish = false

[dependencies]
image = { version = "0.25", default-features = false, features = ["png"] }
anyhow = "1"
clap = { version = "4", features = ["derive"] }
