[package]
name = "iwd_tui"
version = "0.1.0"
edition = "2021"
publish = false

[dependencies]
chrono = "0.4"
crossterm = "0.28"
dbus = { version = "0.9", features = ["vendored"] }
dbus-crossroads = "0.5"
libc = "0.2"
ratatui = "0.29"
