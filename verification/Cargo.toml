[package]
name = "latex_preview"
version = "0.1.0"
edition = "2021"
publish = false

[dependencies]
html-escape = "=0.2.15"
dirs = "=7.0.0"
urlencoding = "=2.1.3"
tempfile = "=3.27.0"
toml = "=1.1.6"
serde = { version = "=1.0.229", features = ["derive"] }
tokio = { version = "=1.53.2", features = ["rt-multi-thread", "sync", "time", "macros", "process"] }
