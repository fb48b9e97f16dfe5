[package]
name = "germinal"
version = "0.1.0"
edition = "2021"
publish = false

[dependencies]
alacritty_terminal = "=0.26.0"
compio = { version = "=0.19.2", features = ["macros", "runtime", "time", "async-fd", "io"] }
glyphon = "=0.12.0"
wgpu = "=30.0.1"
winit = "=0.30.13"
rustix = { version = "=1.1.6", features = ["fs", "termios"] }
rustix-openpty = "=0.2.0"
