[package]
name = "musializer"
version = "0.1.0"
edition = "2021"
publish = false

[dependencies]
semver = "=1.0.28"
serde = { version = "=1.0.229", features = ["derive"] }
rustfft = "=6.4.1"
symphonia = "=0.5.5"
image = { version = "=0.25.10", default-features = false, features = ["png", "jpeg"] }
crossbeam-channel = "=0.5.17"
log = "=0.4.35"
env_logger = "=0.11.11"
cpal = "=0.18.2"
reqwest = { version = "=0.12.28", default-features = false, features = ["blocking", "json", "rustls-tls"] }
tokio = { version = "=1.54.1", features = ["rt-multi-thread", "time", "macros"] }
self_update = { version = "=1.3.3", default-features = false, features = ["reqwest", "rustls", "github", "archive-tar", "compression-tar-gz"] }
