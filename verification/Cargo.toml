[package]
name = "topspin"
version = "0.1.0"
edition = "2021"
publish = false

[dependencies]
shell-words = "*"
tokio = { version = "*", features = ["full"] }
libc = "*"
serde = { version = "*", features = ["derive"] }
toml = "*"
dirs = "*"
