[package]
name = "snake_game"
version = "0.1.0"
edition = "2021"
publish = false

[dependencies]
js-sys = "0.3"
wasm-bindgen = "0.2"
web-sys = { version = "0.3", features = ["console", "CssStyleDeclaration", "Document", "Element", "Event", "EventTarget", "HtmlDivElement", "HtmlElement", "KeyboardEvent", "Node", "UiEvent", "Window"] }
