[package]
name = "devdash"
version = "0.1.0"
edition = "2021"
publish = false

[dependencies]
crossbeam = "*"
crossterm = "*"
dirs = "*"
git2 = "*"
libloading = "*"
notify = "*"
rand = "*"
ratatui = "*"
serde = { version = "*", features = ["derive"] }
sysinfo = "*"
thiserror = "*"
toml = "*"
