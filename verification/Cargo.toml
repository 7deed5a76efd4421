[package]
name = "last_core"
version = "0.1.0"
edition = "2021"
publish = false

[dependencies]
clap = "*"
uucore = { version = "*", features = ["utmpx"] }
