[package]
name = "sydney"
version = "0.1.0"
edition = "2021"
publish = false

[dependencies]
crossterm = "=0.29.0"
germ = { version = "=0.5.2", features = ["blocking"] }
ratatui = "=0.30.2"
url = "=2.5.8"
