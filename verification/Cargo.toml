[package]
name = "champ_node"
version = "0.1.0"
edition = "2021"
publish = false

[dependencies]
sled = "=0.34.7"
serde = { version = "=1.0.229", features = ["derive"] }
serde_json = "=1.0.154"
toml = "=0.5.11"
directories = "=4.0.1"
path-absolutize = "=3.1.1"
clap = "=3.2.25"
anyhow = "=1.0.104"
thiserror = "=1.0.69"
zeroize = "1"
chrono = "0.4"
