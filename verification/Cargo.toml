[package]
name = "animation_replace_roblox"
version = "0.1.0"
edition = "2021"
publish = false

[dependencies]
anyhow = "=1.0.104"
base64 = "=0.21.7"
bytes = "=1.12.1"
clap = { version = "=4.6.7", features = ["derive"] }
futures = "=0.3.34"
rbx_binary = "=3.0.1"
rbx_dom_weak = "=4.2.0"
rbx_types = "=3.1.0"
regex = "=1.13.1"
reqwest = { version = "=0.12.28", default-features = false, features = ["rustls-tls", "json", "gzip"] }
roboat = "=0.39.0"
serde = { version = "=1.0.229", features = ["derive"] }
shellexpand = "=3.1.2"
thiserror = "=2.0.21"
tokio = { version = "=1.54.1", features = ["full"] }
url = "=2.5.8"
ustr = "=1.1.0"
