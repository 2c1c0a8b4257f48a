[package]
name = "ptywright-repl"
version = "0.1.0"
edition = "2021"
publish = false

[dependencies]
crossbeam-channel = "=0.5.17"
crossterm = "=0.29.0"
interprocess = "=2.4.7"
libc = "=0.2.191"
mlua = { version = "=0.10.5", features = ["lua54", "vendored", "serialize", "send"] }
nu-ansi-term = "=0.50.3"
ratatui = "=0.30.2"
reedline = { version = "=0.52.1", features = ["external_printer"] }
serde = { version = "=1.0.229", features = ["derive"] }
serde_json = "=1.0.154"
thiserror = "=2.0.21"
tracing = "=0.1.44"
tui-input = "=0.15.5"
