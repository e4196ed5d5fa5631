[package]
name = "sqlite_reader"
version = "0.1.0"
edition = "2021"
publish = false

[dependencies]
anyhow = "=1.0.104"
colored = "=2.2.0"
console = "=0.15.11"
itertools = "*"
prettytable = "=0.10.0"
