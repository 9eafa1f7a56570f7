[package]
name = "site_announce"
version = "0.1.0"
edition = "2021"
publish = false

[dependencies]
anyhow = "=1.0.104"
gethostname = "=1.1.0"
p2panda-core = "=0.6.1"
rand = "=0.10.3"
serde = { version = "=1.0.229", features = ["derive"] }
tokio = { version = "=1.53.2", features = ["full"] }
