[package]
name = "fsbrowse"
version = "0.1.0"
edition = "2021"
publish = false

[dependencies]
pancurses = "*"
ncurses = "*"
log = "*"
simplelog = "*"
chrono = "*"
itertools = "*"
