[package]
name = "p2p_vpn"
version = "0.1.0"
edition = "2021"
publish = false

[dependencies]
anyhow = "1"
bincode = "1.3"
console = "0.15"
ctrlc = "3"
dialoguer = "0.11"
dirs = "5"
env_logger = "0.11"
log = "0.4"
rand = "0.8"
ring = "0.17"
self_update = { version = "0.41", default-features = false, features = ["rustls"] }
serde = { version = "1", features = ["derive"] }
serde_json = "1"
tokio = { version = "1", features = ["full"] }
tun = "0.6"
