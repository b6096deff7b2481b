[package]
name = "backtracetk"
version = "0.1.0"
edition = "2021"
publish = false

[dependencies]
regex = "*"
termion = "*"
anstream = "*"
anstyle = "*"
anyhow = "*"
home = "*"
serde = { version = "*", features = ["derive"] }
toml = "*"
