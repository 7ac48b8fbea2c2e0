[package]
name = "perf-event"
version = "0.5.0"
edition = "2021"

[dependencies]
libc = "0.2"
perf-event-open-sys = "*"
