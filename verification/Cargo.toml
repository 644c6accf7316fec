[package]
name = "money_manager"
version = "0.1.0"
edition = "2021"
publish = false

[dependencies]
uuid = { version = "1", features = ["v4", "serde"] }
chrono = { version = "0.4", features = ["serde"] }
base64 = "0.22"
regex = "1"
rand = "0.9"
serde = { version = "1", features = ["derive"] }
serde_json = "1"
serde_repr = "0.1"
serde-wasm-bindgen = "0.6"
csv = "1"
wasm-bindgen = "0.2"
js-sys = "0.3"
web-sys = { version = "0.3", features = ["Window", "Document", "Element", "HtmlElement", "HtmlInputElement", "HtmlSelectElement", "HtmlOptionElement", "HtmlOptionsCollection", "HtmlAnchorElement", "HtmlTextAreaElement", "HtmlDataListElement", "HtmlCollection", "DomTokenList", "CssStyleDeclaration", "DomStringMap", "FileList", "File", "FileReader", "ProgressEvent", "Blob", "KeyboardEvent", "Node", "EventTarget"] }
console_error_panic_hook = "0.1"
unicode-segmentation = "1"
rusqlite = { version = "0.24", features = ["bundled"] }
guid-create = "*"
time = "0.1"
meval = "0.2"
tinyfiledialogs = "3"
web-view = "0.7"
