[package]
name = "ezno_checker"
version = "0.1.0"
edition = "2021"
publish = false

[dependencies]
regress = "*"
source-map = "*"
argh = "*"
glob = "*"
notify = "*"
notify-debouncer-full = "*"
pretty_assertions = "*"
