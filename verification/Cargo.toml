[package]
name = "promptflow"
version = "0.1.0"
edition = "2021"
publish = false

[dependencies]
dirs = "*"
serde = { version = "*", features = ["derive"] }
serde_json = "*"
walkdir = "*"
zip = { version = "*", default-features = false, features = ["deflate"] }
