[package]
name = "dodona_containerfile_evaluator"
version = "0.1.0"
edition = "2021"
publish = false

[dependencies]
clap = { version = "4", features = ["cargo"] }
dockerfile-parser = "*"
serde = { version = "1", features = ["derive"] }
serde_json = "1"
serde_with = "*"
