[package]
name = "ankurah-chat-leptos"
version = "0.1.0"
edition = "2021"
publish = false

[dependencies]
ankurah = "=0.9.0"
ankurah-signals = "=0.9.0"
leptos = "=0.8.12"
web-sys = { version = "=0.3.82", features = ["Window", "Document", "Element", "HtmlElement", "HtmlTextAreaElement", "HtmlHeadElement", "CssStyleDeclaration", "KeyboardEvent", "MouseEvent", "InputEvent", "Event", "EventTarget", "Node", "NodeList", "DomRect"] }
js-sys = "=0.3.82"
wasm-bindgen = "=0.2.105"
wasm-bindgen-futures = "=0.4.55"
send_wrapper = "0.6"
tracing = "0.1"
