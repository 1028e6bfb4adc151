[package]
name = "georeg"
version = "0.1.0"
edition = "2021"
publish = false

[dependencies]
rand = "0.8"
tiff = "*"
image = "*"
base64 = "*"
serde = { version = "*", features = ["derive"] }
anyhow = "*"
clap = { version = "*", features = ["derive"] }
proj = "*"
