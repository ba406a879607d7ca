[package]
name = "zlib_driver"
version = "0.1.0"
edition = "2021"
publish = false

[dependencies]
miniz_oxide = "*"
libz-sys = "*"
libz-ng-sys = "*"
libz-rs-sys = "*"
cloudflare-zlib-sys = "*"
