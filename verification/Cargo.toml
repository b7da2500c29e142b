[package]
name = "runit"
version = "0.1.0"
edition = "2021"
publish = false

[dependencies]
console_stuff = "*"
libc = "*"
miette = { version = "*", features = ["fancy"] }
strsim = "*"
thiserror = "*"
walkdir = "*"
