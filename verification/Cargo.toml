[package]
name = "ssh_t"
version = "0.1.0"
edition = "2021"
publish = false

[dependencies]
anyhow = "1"
async-trait = "0.1"
chrono = "0.4"
crossterm = "0.28"
dirs = "5"
keyring = "3"
ratatui = "0.29"
russh = "0.49"
russh-keys = "0.49"
russh-sftp = "2"
serde = { version = "1", features = ["derive"] }
tokio = { version = "1", features = ["full"] }
toml = "0.8"
vte = "*"

[dev-dependencies]
vte = "*"
