[package]
name = "pattern_editor"
version = "0.1.0"
edition = "2021"
publish = false

[dependencies]
gloo = "0.11"
implicit-clone = { version = "0.4", features = ["map"] }
indexmap = "2"
log = "0.4"
thiserror = "1"
wasm-bindgen = "0.2"
wasm-logger = "0.2"
web-sys = { version = "0.3", features = ["CanvasRenderingContext2d", "DomRect", "Element", "HtmlCanvasElement", "HtmlInputElement", "MouseEvent", "Window"] }
yew = { version = "0.21", features = ["csr"] }
yew-router = "0.18"
