[package]
name = "binbook_x4"
version = "0.1.0"
edition = "2021"
publish = false

[dependencies]
embedded-storage = "0.3"
embedded-graphics = "0.8"
embedded-graphics-core = "0.4"
heapless = "0.8"
profont = "0.7"
