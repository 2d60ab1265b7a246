[package]
name = "lighting_controller"
version = "0.1.0"
edition = "2021"
publish = false

[dependencies]
fastrand = "*"
rgb = "*"
smart-leds = "*"
embedded-time = "*"
