[package]
name = "geodesic_tracer"
version = "0.1.0"
edition = "2021"
publish = false

[dependencies]
anyhow = "=1.0.104"
console_error_panic_hook = "=0.1.7"
console_log = "=1.1.0"
egui = "=0.27.2"
egui_glow = { version = "=0.27.2", features = ["winit"] }
env_logger = "=0.11.11"
glow = "=0.13.1"
glutin = "=0.31.3"
glutin-winit = "=0.4.2"
log = "=0.4.34"
raw-window-handle = "=0.5.2"
sdl2 = "*"
wasm-bindgen = "=0.2.129"
web-sys = { version = "=0.3.106", features = ["Document", "Element", "HtmlCanvasElement", "WebGl2RenderingContext", "Window"] }
web-time = "=0.2.4"
winit = "=0.29.15"
