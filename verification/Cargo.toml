[package]
name = "mint"
version = "0.1.0"
edition = "2021"
publish = false

[dependencies]
glob = "=0.3.4"
widestring = "=1.2.1"
thiserror = "=1.0.69"
serde = { version = "=1.0.229", features = ["derive"] }
serde_json = "=1.0.154"
anyhow = "=1.0.104"
steamlocate = "=2.1.1"
dap = "=0.4.1-alpha1"
reqwest = { version = "0.12", default-features = false, features = ["json", "rustls-tls"] }
