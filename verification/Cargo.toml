[package]
name = "paladin_core"
version = "0.1.0"
edition = "2021"
publish = false

[dependencies]
ahash = "0.8"
crop = "0.4"
lsp-types = "0.95"
miette = "7"
serde = { version = "1", features = ["derive"] }
serde_json = "1"
strum = { version = "0.26", features = ["derive"] }
tree-sitter = "0.22"
tree-sitter-rust = "0.21"
url = "2"
