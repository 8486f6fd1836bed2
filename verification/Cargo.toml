[package]
name = "hachip"
version = "0.1.0"
edition = "2021"
publish = false

[dependencies]
getrandom = "*"
log = "*"
env_logger = "*"
sdl2 = "*"
