[package]
name = "strides"
version = "0.1.0"
edition = "2021"
publish = false

[dependencies]
owo-colors = "4"
futures-lite = "2"
futures-timer = "3"
pin-project-lite = "0.2"
terminal_size = "0.4"
crossterm = "0.28"
futures = "0.3"
