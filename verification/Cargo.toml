[package]
name = "prosafe_exporter"
version = "0.1.0"
edition = "2021"
publish = false

[dependencies]
rand = "0.8"
interfaces2 = "*"
prometheus = "*"
structopt = "*"
url = "*"
