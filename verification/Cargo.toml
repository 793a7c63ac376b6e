[package]
name = "arto"
version = "0.1.0"
edition = "2021"
publish = false

[dependencies]
pulldown-cmark = "=0.13.6"
html-escape = "=0.3.0"
sha2 = "=0.11.1"
base64 = "=0.23.1"
serde = { version = "=1.0.229", features = ["derive"] }
serde_json = "=1.0.154"
serde_yaml = "=0.9.34"
lol_html = "=3.0.3"
dirs = "=7.0.0"
ureq = { version = "=3.5.1", default-features = false }
compile-time = "*"
arboard = { version = "*", default-features = false }
