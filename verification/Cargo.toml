[package]
name = "weibo_pc"
version = "0.1.0"
edition = "2021"
publish = false

[dependencies]
base64 = "0.22"
url = "2"
aes = "0.8"
cbc = { version = "0.1", features = ["block-padding", "alloc"] }
rsa = "0.9"
sha2 = "0.10"
rand = "0.8"
anyhow = "1"
serde = { version = "1", features = ["derive"] }
serde_json = "1"
tokio = { version = "1", features = ["full"] }
reqwest = { version = "0.12", default-features = false, features = ["json", "rustls-tls", "cookies"] }
futures-util = "0.3"
tokio-tungstenite = { version = "0.24", features = ["rustls-tls-webpki-roots"] }
rustls = "0.23"
tokio-rustls = "0.26"
rustls-pemfile = "2"
rustls-native-certs = "0.8"
rcgen = { version = "0.13", features = ["x509-parser"] }
time = { version = "0.3", features = ["formatting"] }
open = "5"
