[package]
name = "chip8"
version = "0.1.0"
edition = "2021"
publish = false

[dependencies]
rand = "0.8"
sha1 = "0.10"
serde_json = "1"
sdl2 = "0.35"
crossterm = "0.25"
tui = "0.19"
