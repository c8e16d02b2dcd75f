[package]
name = "tcp_streamer"
version = "0.1.0"
edition = "2021"
publish = false

[dependencies]
chacha20poly1305 = "0.10"
hkdf = "0.12"
sha2 = "0.10"
ipnet = "2"
serde = { version = "1", features = ["derive"] }
thiserror = "1"
log = "0.4"
chrono = "0.4"
libc = "0.2"
socket2 = "0.5"
ringbuf = "0.3"
cpal = "0.15"
mdns-sd = "0.11"
local-ip-address = "0.6"
thread-priority = "1"
opus = "0.3"
flac-bound = "0.3"
