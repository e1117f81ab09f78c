[package]
name = "frontend"
version = "0.1.0"
edition = "2021"
publish = false

[dependencies]
fluent-bundle = "=0.15.3"
intl-memoizer = "=0.5.3"
unic-langid = "=0.9.6"
base64 = "=0.21.7"
html-escape = "=0.2.15"
pulldown-cmark = "=0.9.6"
ammonia = "=3.3.4"
serde = { version = "=1.0.229", features = ["derive"] }
serde_json = "=1.0.154"
once_cell = "=1.21.4"
yew = { version = "=0.21.0", features = ["csr"] }
yew-router = "=0.18.0"
js-sys = "=0.3.107"
wasm-bindgen-futures = "=0.4.80"
gloo-timers = "=0.3.0"
reqwasm = "=0.5.0"
web-sys = { version = "=0.3.107", features = ["Window", "Storage", "Location", "HtmlInputElement", "HtmlSelectElement", "HtmlTextAreaElement", "FormData", "File", "FileList", "Blob"] }
