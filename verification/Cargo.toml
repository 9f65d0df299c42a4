[package]
name = "hetzner_ddns"
version = "0.1.0"
edition = "2021"
publish = false

[dependencies]
clap = { version = "4", features = ["derive"] }
color-eyre = "0.6"
eyre = "0.6"
lazy_static = "1"
reqwest = { version = "0.12", features = ["json"] }
serde = { version = "1", features = ["derive"] }
tokio = { version = "1", features = ["macros", "rt", "fs"] }
toml = "0.8"
tracing = "0.1"
tracing-subscriber = "0.3"
