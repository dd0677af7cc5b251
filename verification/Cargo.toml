[package]
name = "niebla_158"
version = "0.1.0"
edition = "2021"
publish = false

[dependencies]
anyhow = "*"
async-trait = "*"
bitcoin = "0.32"
rusqlite = { version = "*", features = ["bundled"] }
tokio = { version = "*", default-features = false, features = ["rt"] }
