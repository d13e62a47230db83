[package]
name = "goose_fighter"
version = "0.1.0"
edition = "2021"
publish = false

[dependencies]
bytemuck = { version = "1", features = ["derive"] }
comfy = { version = "0.4", default-features = false }
futures-lite = "2"
ggrs = "0.10"
include_dir = "0.7"
ron = "0.8"
serde = { version = "1", features = ["derive"] }
wasm-bindgen-futures = "0.4"
