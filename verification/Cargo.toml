[package]
name = "rhinco_tv"
version = "0.1.0"
edition = "2021"
publish = false

[dependencies]
uuid = { version = "=1.29.0", features = ["v4"] }
urlencoding = "=2.1.3"
serde = { version = "=1.0.229", features = ["derive"] }
serde_json = "=1.0.154"
directories = "=6.0.0"
anyhow = "=1.0.104"
thiserror = "=2.0.21"
procfs = "=0.18.0"
freedesktop-desktop-entry = "=0.7.19"
freedesktop-icons = "=0.4.0"
rayon = "=1.12.0"
zeroize = "=1.9.1"
image = { version = "0.25", default-features = false, features = ["png", "jpeg", "webp"] }
ureq = "3"
