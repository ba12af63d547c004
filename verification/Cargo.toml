[package]
name = "dolby_vision"
version = "0.1.0"
edition = "2021"
publish = false

[dependencies]
anyhow = "=1.0.104"
roxmltree = "=0.14.1"
serde = { version = "=1.0.229", features = ["derive"] }
serde_json = "1"
structopt = "=0.3.26"
