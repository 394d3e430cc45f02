[package]
name = "effer"
version = "0.1.0"
edition = "2021"
publish = false

[dependencies]
argon2 = "0.5"
chacha20poly1305 = "0.10"
rand = "0.8"
sodiumoxide = "0.2"
regex = "1"
colorskill = "*"
termion = "1.5"
textwrap = "0.16"
unicode-width = "0.1"
shellexpand = "2"
dirs = "4"
clap = "2"
toml = "0.5"
serde = { version = "1", features = ["derive"] }
rustyline = "6"
