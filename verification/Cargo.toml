[package]
name = "vhs_86"
version = "0.1.0"
edition = "2021"
publish = false

[dependencies]
regex = "*"
chrono = "*"
dirs = "*"
unicode-width = "*"
base64 = "*"
serde = { version = "*", features = ["derive"] }
serde_json = "*"
toml = "*"
zip = { version = "*", default-features = false, features = ["deflate"] }
tar = "*"
flate2 = "*"
walkdir = "*"
open = "*"
crossterm = "*"
ratatui = "*"
syntect = { version = "*", default-features = false, features = ["default-syntaxes", "default-themes", "regex-fancy"] }
image = { version = "*", default-features = false, features = ["png", "jpeg", "gif", "bmp", "webp"] }
git2 = { version = "*", default-features = false }
tracing = "*"
