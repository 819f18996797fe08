[package]
name = "rvm"
version = "0.1.0"
edition = "2021"
publish = false

[dependencies]
vulkano = "0.32"
vulkano-win = "0.32"
winit = "0.27"
bytemuck = "1"
