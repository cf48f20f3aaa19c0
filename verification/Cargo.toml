[package]
name = "touch_shell"
version = "0.1.0"
edition = "2021"
publish = false

[dependencies]
bitflags = "=1.3.2"
cairo-rs = "=0.5.0"
cairo-sys-rs = "=0.7.0"
cgmath = "=0.17.0"
fern = "=0.5.9"
lazy_static = "=1.5.1"
log = "=0.4.34"
time = "=0.1.45"
wlroots = { version = "=0.2.4", features = ["unstable"] }
