[package]
name = "fssh"
version = "0.1.0"
edition = "2021"
publish = false

[dependencies]
aes-gcm = "0.10"
chacha20 = "0.9"
clap = { version = "4", features = ["derive"] }
crossterm = "*"
hex = "0.4"
poly1305 = "0.8"
rand = "0.8"
ring = "0.17"
rpassword = "*"
whoami = "*"
