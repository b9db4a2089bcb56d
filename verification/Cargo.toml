[package]
name = "chip8_emulator_rust"
version = "0.1.0"
edition = "2021"
publish = false

[dependencies]
rand = "0.8"
sdl2 = "*"
clearscreen = "*"
