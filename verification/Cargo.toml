[package]
name = "satysfi-language-server"
version = "0.1.0"
edition = "2021"
publish = false

[dependencies]
satysfi-parser = "=0.0.3"
regex = "=1.13.1"
lspower = "=1.5.0"
tokio = { version = "=1.54.1", features = ["rt-multi-thread", "macros", "net", "io-std", "io-util"] }
structopt = "=0.3.26"
env_logger = "=0.11.11"
log = "=0.4.34"
anyhow = "=1.0.104"
toml = "=1.1.8"
serde = { version = "=1.0.229", features = ["derive"] }
glob = "=0.3.4"
