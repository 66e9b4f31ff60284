[package]
name = "dersp"
version = "0.1.0"
edition = "2021"
publish = false

[dependencies]
crypto_box = "*"
httparse = "*"
tokio = { version = "*", features = ["rt-multi-thread", "macros", "net", "io-util", "sync", "time"] }
clap = { version = "*", features = ["derive"] }
anyhow = "*"
log = "*"
env_logger = "*"
