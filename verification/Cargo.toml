[package]
name = "ashlogin"
version = "0.1.0"
edition = "2021"
publish = false

[dependencies]
anyhow = "1"
clap = { version = "4", features = ["derive"] }
crossterm = "0.28"
dialoguer = "0.11"
dirs = "6"
keyring = "3"
ratatui = "0.29"
serde = { version = "1", features = ["derive"] }
signal-hook = "0.3"
ssh2 = "0.9"
toml = "0.8"
