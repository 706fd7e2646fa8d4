[package]
name = "breadboard"
version = "0.1.0"
edition = "2021"
publish = false

[dependencies]
heapless = "0.8"
hash32 = "0.3"
embedded-graphics = "0.8"
embedded-graphics-core = "0.4"
embedded-hal = "1.0"
embedded-graphics-simulator = "*"
