[package]
name = "shader_quad"
version = "0.1.0"
edition = "2021"
publish = false
