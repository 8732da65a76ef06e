[package]
name = "plaintasks"
version = "0.1.0"
edition = "2021"
publish = false

[dependencies]
chrono = "*"
tokio = { version = "*", features = ["full"] }
tower-lsp = "*"
