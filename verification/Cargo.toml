[package]
name = "snapshot"
version = "0.1.0"
edition = "2021"
publish = false

[dependencies]
clap = "*"
dialoguer = "*"
duct = "*"
fs2 = "*"
serde = { version = "*", features = ["derive"] }
serde_json = "*"
walkdir = "*"
