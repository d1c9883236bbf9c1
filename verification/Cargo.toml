[package]
name = "chip8"
version = "0.1.0"
edition = "2021"

[dependencies]
anyhow = "1"
minifb = "*"
rand = "0.8"
