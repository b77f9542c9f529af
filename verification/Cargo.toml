[package]
name = "sqltui"
version = "0.1.0"
edition = "2021"
publish = false

[dependencies]
crossterm = "=0.27.0"
mysql = { version = "=28.0.3", default-features = false, features = ["minimal-rust"] }
ratatui = "=0.23.0"
structopt = "=0.3.26"
