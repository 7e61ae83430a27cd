[package]
name = "miai"
version = "0.1.0"
edition = "2021"
publish = false

[dependencies]
anyhow = "1"
base16ct = { version = "0.2", features = ["alloc"] }
base64ct = { version = "1", features = ["alloc"] }
clap = { version = "4", features = ["derive"] }
cookie_store = "0.21"
futures-util = "0.3"
inquire = "0.7"
md-5 = "0.10"
rand = "0.9"
reqwest = { version = "0.12", default-features = false, features = ["cookies", "json", "rustls-tls"] }
reqwest_cookie_store = "0.8"
serde = { version = "1", features = ["derive"] }
serde_json = "1"
sha1 = "0.10"
thiserror = "2"
tokio = { version = "1", features = ["full"] }
tokio-tungstenite = "0.24"
tracing = "0.1"
url = "2"
