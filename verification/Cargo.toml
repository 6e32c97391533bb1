[package]
name = "linux_perf_data"
version = "0.1.0"
edition = "2021"
publish = false

[dependencies]
byteorder = "=1.5.0"
linear-map = "=1.2.0"
linux-perf-event-reader = "=0.10.2"
memchr = "=2.8.3"
prost = "=0.14.4"
prost-derive = "=0.14.4"
zstd-safe = "=8.0.0"
