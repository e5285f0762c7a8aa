[package]
name = "git_tidy"
version = "0.1.0"
edition = "2021"
publish = false

[dependencies]
anyhow = "*"
clap = { version = "*", features = ["derive"] }
colored = "*"
dirs = "*"
git2 = { version = "*", default-features = false }
glob = "*"
regex = "*"
serde = { version = "*", features = ["derive"] }
toml = "*"
