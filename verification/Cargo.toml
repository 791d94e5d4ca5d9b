[package]
name = "wavecrux_sigrok_bridge"
version = "0.1.0"
edition = "2021"
publish = false

[dependencies]
byteorder = "1"
serde = { version = "1", features = ["derive"] }
serde_json = "1"
thiserror = "1"
anyhow = "1"
log = "0.4"
env_logger = "0.11"
libc = "0.2"
clap = { version = "4", features = ["derive"] }
