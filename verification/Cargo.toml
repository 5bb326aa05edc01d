[package]
name = "ssh_honeypot"
version = "0.1.0"
edition = "2021"
publish = false

[dependencies]
russh = "*"
russh-keys = "*"
tokio = { version = "*", features = ["full"] }
futures = "*"
deadpool-postgres = "*"
tokio-postgres = "*"
