[package]
name = "particles"
version = "0.1.0"
edition = "2021"
publish = false

[dependencies]
heapless = "0.8"
libm = "0.2"
embedded-graphics = "0.8"
embedded-graphics-simulator = "*"
