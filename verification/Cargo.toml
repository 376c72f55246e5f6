[package]
name = "eui_neo_rust"
version = "0.1.0"
edition = "2021"
publish = false

[dependencies]
fontdue = "*"
gl = "*"
glfw = { version = "*", default-features = false }
