[package]
name = "leaf_core"
version = "0.1.0"
edition = "2021"
publish = false

[dependencies]
ratatui = "*"
anyhow = "*"
syntect = { version = "5", default-features = false, features = ["default-fancy"] }
