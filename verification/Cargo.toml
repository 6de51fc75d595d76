[package]
name = "kms_core"
version = "0.1.0"
edition = "2021"
publish = false

[dependencies]
base64 = "=0.22.1"
openssl = "=0.10.81"
zeroize = "=1.9.1"
serde = { version = "=1.0.229", features = ["derive"] }
serde_json = "=1.0.154"
toml = "=0.8.23"
clap = { version = "=4.6.7", features = ["derive", "env"] }
reqwest = { version = "=0.12.28", features = ["json"] }
actix-web = { version = "=4.18.1", default-features = false, features = ["macros", "openssl"] }
actix-rt = "=2.15.0"
actix-server = "=2.10.0"
tokio = { version = "=1.54.1", features = ["rt-multi-thread", "macros", "sync", "time"] }
futures = "=0.3.34"
tracing = "=0.1.44"
dotenvy = "=0.15.7"
env_logger = "=0.11.11"
