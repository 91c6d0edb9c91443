[package]
name = "rook_core"
version = "0.1.0"
edition = "2021"
publish = false

[dependencies]
base64 = "=0.22.1"
regex-lite = "=0.1.9"
image = { version = "=0.25.10", default-features = false, features = ["png", "jpeg", "webp"] }
lopdf = "=0.46.0"
serde = { version = "=1.0.229", features = ["derive"] }
serde_json = "=1.0.154"
thiserror = "=1.0.69"
lazy_static = "=1.5.1"
zip = { version = "=9.1.0", default-features = false, features = ["deflate"] }
ttf-parser = "=0.25.1"
docx-rust = "=0.1.11"
printpdf = { version = "=0.12.8", default-features = false }
pdfium-render = "=0.9.4"
reqwest = { version = "*", default-features = false, features = ["json"] }
notify = "*"
tokio = { version = "1", features = ["rt"] }
font-kit = "*"
tesseract = "*"
wasm-bindgen = "*"
serde-wasm-bindgen = "*"
console_error_panic_hook = "*"
