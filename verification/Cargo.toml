[package]
name = "live_markdown_native"
version = "0.1.0"
edition = "2021"
publish = false

[dependencies]
pulldown-cmark = { version = "=0.13.5", default-features = false }
tokio = { version = "=1.54.1", features = ["full"] }
axum = "=0.8.9"
async-stream = "=0.3.6"
serde = { version = "=1.0.229", features = ["derive"] }
serde_json = "=1.0.154"
nvim-oxi = { version = "=0.6.0", features = ["neovim-0-11"] }
