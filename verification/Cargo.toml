[package]
name = "termtunes"
version = "0.1.0"
edition = "2021"
publish = false

[dependencies]
symphonia = { version = "=0.5.5", default-features = false, features = ["mp3", "flac", "wav", "pcm"] }
cpal = "=0.18.2"
crossterm = "=0.29.0"
ratatui = "=0.30.2"
id3 = "=1.17.2"
walkdir = "=2.5.0"
serde = { version = "=1.0.229", features = ["derive"] }
serde_json = "=1.0.151"
log = "=0.4.34"
simplelog = "=0.12.2"
