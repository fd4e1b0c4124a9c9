[package]
name = "gitflow_version"
version = "0.1.0"
edition = "2021"
publish = false

[dependencies]
hex = "0.4"
git2 = "*"
serde = { version = "1", features = ["derive"] }
