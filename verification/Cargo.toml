[package]
name = "chip_8_rs"
version = "0.1.0"
edition = "2021"
publish = false

[dependencies]
rand = "*"
rodio = "*"
sdl2 = "*"
