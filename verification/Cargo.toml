[package]
name = "kvfs"
version = "0.1.0"
edition = "2021"
publish = false

[dependencies]
anyhow = "1"
env_logger = "0.10"
fuse = "0.3"
libc = "0.2"
log = "0.4"
nix = { version = "*", features = ["fs", "socket"] }
rand = "0.8"
redis = "*"
serde = { version = "1", features = ["derive"] }
serde_json = "1"
sha2 = "0.10"
time = "0.1"
tokio = { version = "1", features = ["full"] }
