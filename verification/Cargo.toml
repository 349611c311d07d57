[package]
name = "lpd8_monitor"
version = "0.1.0"
edition = "2021"
publish = false

[dependencies]
midir = "*"
sysinfo = "0.16"
