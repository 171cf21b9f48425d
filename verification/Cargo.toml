[package]
name = "scriptvault"
version = "0.1.0"
edition = "2021"
publish = false

[dependencies]
fuzzy-matcher = "=0.3.7"
globset = "=0.4.21"
walkdir = "=2.5.0"
serde = { version = "=1.0.229", features = ["derive"] }
serde_json = "=1.0.154"
serde_yaml = "=0.9.34"
dirs = "=7.0.0"
chrono = "=0.4.45"
clap = { version = "=4.6.7", features = ["derive"] }
clap_complete = "=4.6.11"
clap_mangen = "=0.3.3"
crossterm = "=0.29.0"
ratatui = "=0.30.2"
arboard = { version = "3", default-features = false }
syntect = { version = "5", default-features = false, features = ["default-fancy"] }
