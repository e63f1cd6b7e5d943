[package]
name = "shi"
version = "0.1.0"
edition = "2021"
publish = false

[dependencies]
crossterm = "*"
csv = "*"
dirs = "*"
serde = { version = "*", features = ["derive"] }
sqlite = "*"
tabled = "*"
