[package]
name = "commit_generator"
version = "0.1.0"
edition = "2021"
publish = false

[dependencies]
anyhow = "*"
clap = { version = "*", features = ["derive"] }
dialoguer = "*"
indicatif = "*"
ollama-rs = "*"
tokio = { version = "*", features = ["macros", "rt-multi-thread"] }
url = "*"
