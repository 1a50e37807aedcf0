[package]
name = "gyromouse"
version = "0.1.0"
edition = "2021"
publish = false

[dependencies]
anyhow = "=1.0.104"
cgmath = "=0.18.0"
core-graphics = "=0.25.0"
enigo = { version = "=0.6.1", default-features = false, features = ["x11rb"] }
sdl2 = { version = "=0.38.0", features = ["hidapi"] }
