[package]
name = "pomp"
version = "0.1.0"
edition = "2021"
publish = false

[dependencies]
arboard = { version = "*", default-features = false }
base64 = "*"
crossterm = "*"
cuid = "*"
lightningcss = "1.0.0-alpha.72"
ratatui = "*"
serde_json = "*"
sha2 = "*"
urlencoding = "*"
uuid = { version = "*", features = ["v4"] }
