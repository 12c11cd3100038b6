[package]
name = "snappea"
version = "0.1.0"
edition = "2021"
publish = false
rust-version = "1.95"

[dependencies]
anyhow = "=1.0.104"
cosmic-text = "=0.19.0"
iced_core = "=0.14.0"
log = "=0.4.35"
tokio = { version = "=1.54.1", features = ["rt"] }
zbus = "=6.2.1"
