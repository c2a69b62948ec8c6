[package]
name = "fugu"
version = "0.1.0"
edition = "2021"
publish = false

[dependencies]
regex = "1"
termion = "1"
clap = "2"
walkdir = "2"
slog = "2"
sloggers = "2"
lazy_static = "1"
yansi = "0.5"
