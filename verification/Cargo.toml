[package]
name = "creo"
version = "0.1.0"
edition = "2021"
publish = false

[dependencies]
clap = "*"
path-clean = "*"
serde = { version = "*", features = ["derive"] }
sha2 = "*"
toml = "*"
