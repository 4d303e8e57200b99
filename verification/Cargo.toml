[package]
name = "asset_redirect"
version = "0.1.0"
edition = "2021"
publish = false

[dependencies]
memchr = "=2.8.3"
libc = "=0.2.191"
scroll = "=0.13.0"
ndk = "=0.9.0"
ndk-sys = { version = "=0.6.0", features = ["test"] }
once_cell = "=1.21.4"
log = "=0.4.34"
android_logger = "=0.15.1"
ctor = "=1.0.13"
plt-rs = "=0.4.0"
