[package]
name = "ftp_server"
version = "0.1.0"
edition = "2021"
publish = false

[dependencies]
time = "*"
serde = { version = "*", features = ["derive"] }
toml = "*"
