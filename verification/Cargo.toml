[package]
name = "otassets"
version = "0.1.0"
edition = "2021"
publish = false

[dependencies]
bytes = "1"
base64 = "0.21"
image = { version = "0.24", default-features = false, features = ["png"] }
rayon = "1"
itertools = "0.11"
serde = { version = "1", features = ["derive"] }
rkyv = "0.7"
async-trait = "0.1"
futures = "0.3"
tokio = { version = "1", features = ["net", "rt-multi-thread", "macros", "sync"] }
tokio-tungstenite = "0.20"
tungstenite = "0.20"
wasm-bindgen = "0.2"
wasm-bindgen-futures = "0.4"
js-sys = "0.3"
web-sys = { version = "0.3", features = ["BinaryType", "MessageEvent", "WebSocket", "HtmlCanvasElement", "WebGl2RenderingContext", "WebGlProgram", "WebGlShader", "WebGlBuffer", "WebGlTexture", "WebGlUniformLocation", "console"] }
serde-wasm-bindgen = "0.6"
webgl-matrix = "0.1"
