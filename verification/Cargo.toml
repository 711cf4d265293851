[package]
name = "rustcmdpev"
version = "0.1.0"
edition = "2021"
publish = false

[dependencies]
colored = "*"
textwrap = "*"
serde = { version = "*", features = ["derive"] }
serde_json = "*"
