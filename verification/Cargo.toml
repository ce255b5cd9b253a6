[package]
name = "webgl_engine"
version = "0.1.0"
edition = "2021"
publish = false

[dependencies]
gltf = { version = "*", default-features = false }
wasm-bindgen = "*"
js-sys = "*"
web-sys = { version = "*", features = [
    "Element",
    "HtmlCanvasElement",
    "Window",
    "Performance",
    "Response",
    "WebGlRenderingContext",
    "WebGlProgram",
    "WebGlShader",
    "WebGlUniformLocation",
    "WebGlActiveInfo",
    "WebGlBuffer",
    "WebGlTexture",
    "WebGlVertexArrayObject",
    "OesVertexArrayObject",
] }
wasm-bindgen-futures = "*"
nalgebra-glm = "*"
console_error_panic_hook = "*"
wee_alloc = "*"
