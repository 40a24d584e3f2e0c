[package]
name = "obsidian_launcher"
version = "0.1.0"
edition = "2021"
publish = false

[dependencies]
anyhow = "1"
dirs = "5"
evdev = "0.12"
notify = "6"
pulldown-cmark = "0.12"
serde = { version = "1", features = ["derive"] }
tantivy = { version = "0.24", default-features = false, features = ["mmap"] }
tokio = { version = "1", features = ["full"] }
toml = "0.8"
tracing = "0.1"
tracing-subscriber = "0.3"
urlencoding = "2"
wayland-client = "0.31"
