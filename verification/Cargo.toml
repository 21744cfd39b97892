[package]
name = "cpr_ihex"
version = "0.1.0"
edition = "2021"
publish = false

[dependencies]
hex = "*"
pretty-hex = "*"
clap = { version = "*", features = ["derive"] }
anyhow = "*"
log = "*"
simplelog = "*"
color-backtrace = "*"
