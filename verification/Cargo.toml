[package]
name = "theshit"
version = "0.1.0"
edition = "2021"
publish = false

[dependencies]
anyhow = "1"
clap = { version = "4", features = ["derive"] }
crossterm = "*"
dirs = "*"
libc = "0.2"
pyo3 = "0.25"
sysinfo = "*"
thiserror = "*"
