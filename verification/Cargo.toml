[package]
name = "mdgbe"
version = "0.1.0"
edition = "2021"
publish = false

[dependencies]
rfd = "*"
sdl2 = "*"
