[package]
name = "eve_metrade"
version = "0.1.0"
edition = "2021"
publish = false

[dependencies]
base64 = "=0.22.1"
chrono = "=0.4.45"
sha2 = "=0.10.9"
urlencoding = "=2.1.3"
csv = "=1.4.0"
flate2 = "=1.1.10"
rand = "=0.8.8"
reqwest = { version = "=0.12.28", features = ["blocking", "json"] }
rusqlite = { version = "0.32", features = ["bundled"] }
serde = { version = "=1.0.229", features = ["derive"] }
serde_json = "=1.0.154"
webbrowser = "=1.2.6"
