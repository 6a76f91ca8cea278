[package]
name = "scopeclock"
version = "0.1.0"
edition = "2021"
publish = false

[dependencies]
bresenham = "=0.1.1"
chrono = { version = "=0.4.45", default-features = false }
chrono-tz = { version = "=0.10.4", default-features = false }
libm = "=0.2.16"
critical-section = "=1.2.0"
embassy-executor = "=0.10.0"
embassy-futures = "=0.1.2"
embassy-net = { version = "=0.9.1", features = ["tcp", "udp", "dns", "dhcpv4", "medium-ethernet"] }
embassy-time = "=0.5.1"
embedded-io-async = "=0.7.0"
esp-alloc = "=0.11.0"
esp-backtrace = { version = "=0.20.0", features = ["esp32"] }
esp-hal = { version = "=1.2.2", features = ["esp32"] }
esp-println = { version = "=0.18.0", features = ["esp32"] }
esp-wifi = { version = "=0.13.0", features = ["esp32"] }
esp-wifi-sys = "=0.8.1"
log = "=0.4.34"
rust-mqtt = "=0.6.0"
smoltcp = { version = "=0.14.0", default-features = false, features = ["proto-ipv4", "socket-dns", "medium-ethernet"] }
sntpc = { version = "=0.11.0", default-features = false }
static_cell = "=2.1.1"
svg = "=0.18.0"
