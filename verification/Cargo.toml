[package]
name = "lcd_async"
version = "0.1.0"
edition = "2021"
publish = false

[dependencies]
embedded-hal = "1"
embedded-hal-async = "1"
embedded-graphics = "0.8"
embedded-graphics-core = "0.4"
