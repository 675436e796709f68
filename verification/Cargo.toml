[package]
name = "herdr_kiosk"
version = "0.1.0"
edition = "2021"
publish = false

[dependencies]
anyhow = "=1.0.104"
crossterm = "=0.28.1"
fuzzy-matcher = "=0.3.7"
libc = "=0.2.191"
ratatui = "=0.29.0"
rayon = "=1.12.0"
serde = { version = "=1.0.229", features = ["derive"] }
serde_ignored = "=0.1.14"
serde_json = { version = "=1.0.154", features = ["raw_value"] }
syn = { version = "=2.0.119", features = ["full"] }
toml = "=0.9.12"
unicode-segmentation = "=1.13.3"
unicode-width = "=0.2.0"

[dev-dependencies]
tempfile = "=3.27.0"
