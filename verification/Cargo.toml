[package]
name = "eh2telegraph"
version = "0.1.0"
edition = "2021"
publish = false

[dependencies]
again = "*"
anyhow = "*"
cloudflare-kv-proxy = "*"
hashlink = "*"
ipnet = "*"
parking_lot = "*"
rand = "*"
reqwest = { version = "*", default-features = false, features = ["rustls-tls"] }
serde = { version = "*", features = ["derive"] }
