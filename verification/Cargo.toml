[package]
name = "deadbranch"
version = "0.1.0"
edition = "2021"
publish = false

[dependencies]
anyhow = "1"
chrono = "0.4"
ratatui = "0.29"
