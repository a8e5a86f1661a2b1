[package]
name = "rover"
version = "0.1.0"
edition = "2021"
publish = false

[dependencies]
blowfish = "0.9"
anyhow = "1"
log = "0.4"
simple_logger = "*"
openh264 = "*"
sdl2 = "*"
