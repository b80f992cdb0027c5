[package]
name = "sxmc"
version = "0.1.8"
edition = "2021"
publish = false

[dependencies]
serde_json = "1"
rmcp = "*"
clap = { version = "4", features = ["derive"] }
