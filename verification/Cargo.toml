[package]
name = "aes67-tools"
version = "0.1.0"
edition = "2021"
publish = false

[dependencies]
rand = "0.8"
anyhow = "1"
log = "0.4"
env_logger = "0.11"
tokio = { version = "1", features = ["full"] }
tokio-util = "0.7"
socket2 = { version = "0.5", features = ["all"] }
libc = "0.2"
clap = "4"
serde = { version = "1", features = ["derive"] }
toml = "0.8"
symphonia = "0.5"
rubato = "0.15"
hound = "3"
crossbeam-channel = "0.5"
crossterm = "0.28"
ratatui = "0.29"
