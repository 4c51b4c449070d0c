[package]
name = "mdls"
version = "0.1.0"
edition = "2021"
publish = false

[dependencies]
aurelius = "*"
tokio = { version = "*", features = ["io-std", "rt-multi-thread", "macros", "sync"] }
tower-lsp = "*"
walkdir = "*"
