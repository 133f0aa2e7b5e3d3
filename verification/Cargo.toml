[package]
name = "pwnrail"
version = "0.1.0"
edition = "2021"
publish = false

[dependencies]
home = "*"
dirs = "*"
rustyline = "*"
serde = { version = "*", features = ["derive"] }
toml = "*"
tokio = { version = "*", features = ["rt-multi-thread", "macros"] }
