[package]
name = "authdog_cli"
version = "0.1.0"
edition = "2021"
publish = false

[dependencies]
anyhow = "1"
base64 = "0.22"
chrono = { version = "0.4", default-features = false, features = ["std", "clock"] }
crossterm = "0.28"
directories = "5"
figlet-rs = "0.1"
open = "5"
ratatui = "0.29"
reqwest = { version = "0.12", default-features = false, features = ["blocking", "rustls-tls"] }
serde = { version = "1", features = ["derive"] }
serde_json = "1"
tui-input = "0.11"
unicode-width = "0.2"
url = "2"
uuid = { version = "1", features = ["v4"] }
