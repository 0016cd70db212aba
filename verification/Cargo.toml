[package]
name = "blackout"
version = "0.1.0"
edition = "2021"
publish = false

[dependencies]
rand = "=0.8.8"
bytemuck = { version = "=1.25.2", features = ["derive"] }
winit = "=0.28.7"
wgpu = "=0.16.3"
image = { version = "=0.24.9", default-features = false, features = ["png"] }
pollster = "=0.3.0"
env_logger = "=0.10.2"
log = "=0.4.34"
num = "=0.4.3"
console_error_panic_hook = "0.1"
console_log = "1"
js-sys = "0.3"
wasm-bindgen-futures = "0.4"
web-sys = { version = "0.3", features = ["Document", "Element", "HtmlElement", "Node", "Response", "Window"] }
