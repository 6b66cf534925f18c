[package]
name = "spacework"
version = "0.1.0"
edition = "2021"
publish = false

[dependencies]
chrono = "0.4"
clap = "3"
serde = { version = "1", features = ["derive"] }
toml = "0.5"
