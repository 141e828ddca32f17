[package]
name = "secrets"
version = "0.1.0"
edition = "2021"
publish = false

[dependencies]
base64 = "0.13"
byteorder = "1"
regex = "1"
serde = { version = "1", features = ["derive"] }
serde_json = "1"
failure = { version = "0.1", default-features = false, features = ["std"] }
once_cell = "1"
dirs = "3"
clap = { version = "3", features = ["derive"] }
