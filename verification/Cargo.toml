[package]
name = "rsx_ui"
version = "0.1.0"
edition = "2021"
publish = false

[dependencies]
itoa = "1"
once_cell = "1"
console_error_panic_hook = "0.1"
wasm-bindgen = "0.2"
js-sys = "0.3"
web-sys = { version = "0.3", features = ["console", "CssStyleDeclaration", "Document", "Element", "Event", "EventTarget", "History", "HtmlElement", "HtmlInputElement", "KeyboardEvent", "Location", "Node", "Performance", "Window", "XmlHttpRequest"] }
