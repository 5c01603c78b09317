[package]
name = "unsafe_perf"
version = "0.1.0"
edition = "2021"
publish = false

[dependencies]
ctor = "=0.2.9"
lazy_static = "=1.5.1"
libc = "=0.2.191"
once_cell = "=1.21.4"
