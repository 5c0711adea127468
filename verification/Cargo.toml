[package]
name = "narricky"
version = "0.1.0"
edition = "2021"
publish = false

[dependencies]
clap = "*"
imap = "*"
mailparse = "*"
openssl = "*"
serde = { version = "*", features = ["derive"] }
toml = "*"
unix-daemonize = "*"
