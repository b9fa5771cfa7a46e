[package]
name = "bitsynth"
version = "0.1.0"
edition = "2021"
publish = false

[dependencies]
z3 = "*"
log = "*"
clap = { version = "*", features = ["derive"] }
colog = "*"
