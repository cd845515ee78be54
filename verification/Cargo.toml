[package]
name = "revision2020"
version = "0.1.0"
edition = "2021"
publish = false

[dependencies]
alto = "3.0.4"
cgmath = "0.17"
image = { version = "0.23", default-features = false, features = ["jpeg"] }
lewton = "0.10"
luminance = "0.39"
luminance-derive = "0.5"
luminance-glfw = "0.12"
