[package]
name = "openid_rp"
version = "0.1.0"
edition = "2021"
publish = false

[dependencies]
actix-session = { version = "0.7", features = ["cookie-session"] }
actix-web = "4"
anyhow = "1"
base64 = "0.21"
chrono = { version = "0.4", default-features = false, features = ["clock", "std"] }
dotenv = "0.15"
log = "0.4"
parking_lot = "0.12"
rand = "0.8"
reqwest = { version = "0.11", default-features = false, features = ["rustls-tls"] }
roxmltree = "0.18"
serde = { version = "1", features = ["derive"] }
serde_json = "1"
simplelog = "0.12"
thiserror = "1"
tokio = { version = "1", features = ["macros", "rt"] }
url = "2"

[dev-dependencies]
serde_urlencoded = "0.7"
