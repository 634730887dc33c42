[package]
name = "imgui_book"
version = "0.1.0"
edition = "2021"
publish = false

[dependencies]
anyhow = "1"
gag = "1"
mdbook = { version = "0.4", default-features = false }
pulldown-cmark = "0.9"
pulldown-cmark-to-cmark = "10"
semver = "1"
serde = { version = "1", features = ["derive"] }
serde_json = "1"
