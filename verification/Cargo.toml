[package]
name = "polyphonica"
version = "0.1.0"
edition = "2021"
publish = false

[dependencies]
serde = { version = "1", features = ["derive"] }
serde_json = "1"
toml = "0.8"
dirs = "5"
hound = "3"
chrono = "0.4"
thiserror = "1"
