[package]
name = "espx_core"
version = "0.1.0"
edition = "2021"
publish = false

[dependencies]
lsp-types = "*"
serde = { version = "*", features = ["derive"] }
serde_json = "*"
espionox = "*"
