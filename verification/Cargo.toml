[package]
name = "broquest"
version = "0.1.0"
edition = "2021"
publish = false

[dependencies]
base64 = "=0.22.1"
chrono = "=0.4.45"
digest_auth = "=0.3.1"
oas3 = "=0.22.0"
quick-xml = "=0.42.0"
reqwest = { version = "=0.12.28", default-features = false, features = ["json", "blocking", "multipart", "rustls-tls"] }
serde = { version = "=1.0.229", features = ["derive"] }
serde_json = "=1.0.154"
serde_yaml_ng = "=0.10.0"
toml = "=1.1.8"
url = "=2.5.8"
urlencoding = "=2.1.3"
