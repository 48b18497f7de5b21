[package]
name = "peppemon"
version = "0.1.0"
edition = "2021"
publish = false

[dependencies]
fastrand = "*"
crossterm = "*"
ratatui = "*"
sysinfo = "*"
