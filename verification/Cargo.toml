[package]
name = "macro_gen"
version = "0.1.0"
edition = "2021"
publish = false

[dependencies]
clap = { version = "4", features = ["derive"] }
env_logger = "*"
log = "0.4"
minijinja = "2"
serde = { version = "1", features = ["derive"] }
thiserror = "2"
toml = "*"
