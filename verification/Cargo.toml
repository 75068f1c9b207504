[package]
name = "mining_proxy"
version = "0.1.0"
edition = "2021"
publish = false

[dependencies]
serde_json = "1"
serde = { version = "1", features = ["derive"] }
tokio = { version = "1", features = ["full"] }
anyhow = "1"
log = "0.4"
clap = "2"
bytes = "1"
async-channel = "1"
hostname = "0.3"
lazy_static = "1"
serde_yaml = "0.8"
dotenv = "0.15"
human-panic = "1"
openssl-probe = "0.1"
native-tls = "0.2"
tokio-native-tls = "0.3"
jsonwebtoken = "8"
actix-web = { version = "4", default-features = false, features = ["macros"] }
actix-web-grants = "3"
