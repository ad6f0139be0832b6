[package]
name = "stash_core"
version = "0.1.0"
edition = "2021"
publish = false

[dependencies]
base64 = "0.22"
git2 = { version = "0.20", default-features = false }
keyring = { version = "3", features = ["windows-native"] }
notify = "8"
portable-pty = "0.9"
reqwest = { version = "0.12", default-features = false, features = ["json", "rustls-tls"] }
serde = { version = "1", features = ["derive"] }
serde_json = "1"
windows-sys = { version = "0.59", features = ["Win32_Foundation", "Win32_System_JobObjects"] }
