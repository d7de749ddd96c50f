[package]
name = "freeze_line"
version = "0.1.0"
edition = "2021"
publish = false

[dependencies]
escapi = "4.0"
pixels = "0.2"
winit = "0.24"
