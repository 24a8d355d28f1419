[package]
name = "totp_cli"
version = "0.1.0"
edition = "2021"
publish = false

[dependencies]
anyhow = "*"
clap = { version = "*", features = ["derive"] }
cli-clipboard = "*"
crossterm = "*"
dirs = "*"
hmac = "*"
serde = { version = "*", features = ["derive"] }
serde_json = "*"
sha1 = "*"

[dev-dependencies]
base32 = "*"
totp-rs = "*"
