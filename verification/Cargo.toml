[package]
name = "mm"
version = "0.1.0"
edition = "2021"
publish = false

[dependencies]
anyhow = "1"
base64 = "0.22"
core_affinity = "0.8"
crossbeam-queue = "0.3"
ed25519-dalek = { version = "2", features = ["pkcs8", "pem"] }
futures-util = "0.3"
memchr = "2"
parking_lot = "0.12"
quanta = "0.12"
rustls = { version = "0.23", default-features = false, features = ["ring", "std", "tls12"] }
rustls-native-certs = "0.8"
serde_json = "1"
tokio = { version = "1", features = ["full"] }
tokio-rustls = { version = "0.26", default-features = false, features = ["ring", "tls12"] }
tokio-tungstenite = { version = "*", features = ["rustls-tls-native-roots"] }
