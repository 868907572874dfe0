[package]
name = "cairo_lang"
version = "0.1.0"
edition = "2021"
publish = false

[dependencies]
itertools = "*"
thiserror = "1"
tower-lsp = "0.20"
tokio = { version = "1", features = ["sync", "macros", "rt-multi-thread", "io-std"] }
serde_json = "1"
