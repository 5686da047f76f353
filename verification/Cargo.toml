[package]
name = "openedit_ui"
version = "0.1.0"
edition = "2021"
publish = false

[dependencies]
serde = { version = "=1.0.229", features = ["derive"] }
serde_json = "=1.0.154"
toml = "=1.1.8"
walkdir = "=2.5.0"
regex = "=1.13.1"
glob = "=0.3.4"
log = "=0.4.35"
git2 = { version = "=0.21.0", default-features = false }
pulldown-cmark = { version = "0.12", default-features = false }
url = "2"
