[package]
name = "rogue"
version = "0.1.0"
edition = "2021"
publish = false

[dependencies]
rand = "=0.8.8"
glam = "=0.29.3"
crossterm = "=0.28.1"
ratatui = "=0.29.0"
libc = "=0.2.191"
