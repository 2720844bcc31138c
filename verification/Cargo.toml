[package]
name = "videoproc"
version = "0.1.0"
edition = "2021"
publish = false

[dependencies]
argparse = "*"
execute = "*"
fnmatch-regex = "*"
json = "0.12"
slog = "*"
slog-async = "*"
slog-scope = "*"
slog-term = "*"
tempdir = "*"
