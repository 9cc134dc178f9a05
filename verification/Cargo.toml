[package]
name = "mandelbrot"
version = "0.1.0"
edition = "2021"
publish = false

[dependencies]
threadpool = "*"
sdl2 = { version = "*", features = ["ttf"] }
