[package]
name = "gitlab_stats"
version = "0.1.0"
edition = "2021"
publish = false

[dependencies]
futures = "*"
js-sys = "*"
regex = "*"
serde = { version = "*", features = ["derive"] }
serde-wasm-bindgen = "*"
wasm-bindgen = "*"
wasm-bindgen-futures = "*"
web-sys = { version = "*", features = ["AbortController", "AbortSignal", "Headers", "Request", "RequestInit", "RequestMode", "Response", "Window", "console"] }
