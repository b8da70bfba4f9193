[package]
name = "dashboard"
version = "0.1.0"
edition = "2021"
publish = false

[dependencies]
anyhow = "1"
crossterm = "0.27"
human_bytes = "0.4"
ratatui = "0.26"
sysinfo = "0.29"
