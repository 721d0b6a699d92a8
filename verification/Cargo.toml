[package]
name = "bun"
version = "0.1.0"
edition = "2021"
publish = false

[dependencies]
gl = "*"
glm = "*"
image = "*"
num-traits = "*"
sdl3 = "*"
fastrand = "*"
size-of = "*"
