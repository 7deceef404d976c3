[package]
name = "dipsniper"
version = "0.1.0"
edition = "2021"
publish = false

[dependencies]
alloy = { version = "0.4", default-features = false, features = ["std", "signer-local", "network"] }
secp256k1 = "0.29"
rand = "0.8"
hex = "0.4"
regex = "1"
uuid = { version = "1", features = ["v4"] }
serde = { version = "1", features = ["derive"] }
serde_json = "1"
tokio = { version = "1", features = ["full"] }
bson = "2"
futures-util = "0.3"
reqwest = { version = "0.12", default-features = false, features = ["json", "rustls-tls"] }
log = "0.4"
pretty_env_logger = "0.5"
eyre = "0.6"
config = { version = "0.14", default-features = false, features = ["toml"] }
