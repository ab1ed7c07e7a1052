[package]
name = "hi-nvim-rs"
version = "0.1.0"
edition = "2021"
publish = false

[dependencies]
anyhow = "1"
clap = { version = "4", features = ["derive"] }
color = "*"
serde = { version = "1", features = ["derive"] }
thiserror = "*"
toml = "*"
