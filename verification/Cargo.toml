[package]
name = "nobrain"
version = "0.1.0"
edition = "2021"
publish = false

[dependencies]
pbkdf2 = "*"
hmac = "*"
sha2 = "*"
dialoguer = "*"
dirs = "*"
structopt = "*"
