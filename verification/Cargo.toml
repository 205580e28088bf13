[package]
name = "gir"
version = "0.1.0"
edition = "2021"
publish = false

[dependencies]
clap = { version = "*", features = ["derive"] }
configparser = "*"
flate2 = "*"
sha1 = "*"
