[package]
name = "kome"
version = "0.1.0"
edition = "2021"
publish = false

[dependencies]
serde = { version = "1", features = ["derive"] }
tokio = { version = "1", features = ["io-std", "macros", "rt-multi-thread", "sync"] }
toml = "0.8"
tower-lsp = "0.20"
