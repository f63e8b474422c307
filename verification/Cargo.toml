[package]
name = "midi_tui"
version = "0.1.0"
edition = "2021"
publish = false

[dependencies]
midly = "0.5"
anyhow = "1"
crossterm = "0.27"
midir = "0.9"
rand = "0.8"
ratatui = "0.26"
serde = { version = "1", features = ["derive"] }
serde_json = "1"
