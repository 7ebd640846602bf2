[package]
name = "gitcc"
version = "0.1.0"
edition = "2021"
publish = false

[dependencies]
anyhow = "1"
clap = { version = "4", features = ["derive"] }
colored = "2"
dialoguer = "0.11"
git2 = "*"
handlebars = "5"
indexmap = "=2.14.2"
semver = "=1.0.28"
serde = { version = "1", features = ["derive"] }
serde_yaml = "0.9"
time = { version = "0.3", features = ["formatting", "parsing"] }
toml = "0.8"
