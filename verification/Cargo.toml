[package]
name = "color_picker"
version = "0.1.0"
edition = "2021"
publish = false

[dependencies]
gloo = "0.2"
rand = "0.7"
serde = { version = "1", features = ["derive"] }
wasm-bindgen = "0.2"
web-sys = { version = "0.3", features = ["CanvasRenderingContext2d", "DomRect", "Element", "HtmlCanvasElement", "HtmlElement", "MouseEvent"] }
yew = "0.17"

[dev-dependencies]
regex = "1"
