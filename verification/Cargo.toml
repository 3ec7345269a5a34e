[package]
name = "dir_mapper"
version = "0.1.0"
edition = "2021"
publish = false

[dependencies]
regex = "1"
itertools = "0.10"
rusqlite = "0.28"
crossterm = "0.25"
tui = "0.19"
