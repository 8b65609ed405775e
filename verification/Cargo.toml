[package]
name = "ainav"
version = "0.1.0"
edition = "2021"
publish = false

[dependencies]
bit-vec = "0.6"
image = { version = "0.24", default-features = false, features = ["png"] }
captrs = "*"
enigo = "0.0"
libc = "0.2"
x11 = { version = "2", features = ["xlib", "xinerama", "xrandr"] }
xcb = { version = "0.8", features = ["xlib_xcb"] }
xcb-util = { version = "0.2", features = ["keysyms", "image", "shm"] }
