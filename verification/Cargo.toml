[package]
name = "qk"
version = "0.1.0"
edition = "2021"
publish = false

[dependencies]
anyhow = "=1.0.104"
clap = { version = "=4.6.7", features = ["cargo", "env", "string"] }
confy = "=2.0.0"
serde = { version = "=1.0.229", features = ["derive"] }
