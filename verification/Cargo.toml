[package]
name = "yosegaki"
version = "0.1.0"
edition = "2021"
publish = false

[dependencies]
base64 = "=0.22.1"
uuid = { version = "=1.29.0", features = ["v4", "js"] }
serde = { version = "=1.0.229", features = ["derive"] }
leptos = "=0.8.23"
leptos_axum = { version = "=0.8.10", default-features = false, features = ["wasm"] }
axum = { version = "=0.8.9", default-features = false, features = ["json", "query"] }
worker = { version = "=0.6.7", features = ["http", "axum", "d1"] }
tower-service = "=0.3.3"
wasm-bindgen = "=0.2.130"
wasm-bindgen-futures = "=0.4.80"
js-sys = "=0.3.107"
web-sys = { version = "=0.3.107", features = ["CanvasRenderingContext2d", "HtmlCanvasElement", "HtmlImageElement", "HtmlAnchorElement", "ImageData", "PointerEvent", "TextMetrics", "Window", "Document", "Element"] }
