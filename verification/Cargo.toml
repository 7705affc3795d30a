[package]
name = "ip_echo"
version = "0.1.0"
edition = "2021"
publish = false

[dependencies]
anyhow = "1"
clap = { version = "4", features = ["derive"] }
env_logger = "0.10"
hyper = { version = "0.14", features = ["full"] }
hyper-rustls = { version = "0.24", features = ["acceptor", "http2"] }
log = "0.4"
rustls = "0.21"
rustls-pemfile = "1"
tokio = { version = "1", features = ["full"] }
