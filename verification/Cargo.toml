[package]
name = "goldsrc_assets"
version = "0.1.0"
edition = "2021"
publish = false

[dependencies]
bincode = "1.3"
byteorder = "1"
image = { version = "0.24", default-features = false, features = ["png"] }
glam = "0.24"
clap = { version = "4", features = ["derive"] }
