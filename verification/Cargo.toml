[package]
name = "procedural_texture_generator"
version = "0.1.0"
edition = "2021"
publish = false

[dependencies]
rusvid_core = "*"
noise = "*"
itertools = "*"
once_cell = "*"
wasm-bindgen = "*"
console_error_panic_hook = "*"
web-sys = { version = "*", features = ["CanvasRenderingContext2d", "ImageData", "console"] }
