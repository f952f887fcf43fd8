[package]
name = "encounter"
version = "0.1.0"
edition = "2021"
publish = false

[dependencies]
tyche = "=0.3.1"
rand = "=0.9.5"
ratatui = "=0.30.2"
crossterm = "=0.29.0"
