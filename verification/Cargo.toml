[package]
name = "todo"
version = "0.1.0"
edition = "2021"
publish = false

[dependencies]
clap = { version = "3.2", features = ["cargo"] }
dialoguer = "0.10"
log = "0.4"
read_input = "0.8"
serde = { version = "1", features = ["derive"] }
simplelog = "0.12"
toml = "0.5"
walkdir = "2"
