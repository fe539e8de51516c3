[package]
name = "vault"
version = "0.1.0"
edition = "2021"
publish = false

[dependencies]
rust-argon2 = "=3.0.0"
chacha20poly1305 = { version = "=0.10.1", features = ["stream"] }
rand = "=0.8.8"
uuid = { version = "=1.27.0", features = ["v4"] }
chrono = "=0.4.45"
zeroize = "=1.9.0"
anyhow = "=1.0.104"
clap = { version = "=4.6.7", features = ["derive"] }
clearscreen = "=5.0.0"
cli-clipboard = "=0.4.0"
crossterm = "=0.29.0"
rpassword = "=7.5.4"
thiserror = "=2.0.21"
tui = "=0.19.0"
