[package]
name = "winit"
version = "0.1.0"
edition = "2021"
publish = false

[dependencies]
libredox = "0.1"
redox_event = "0.4"
raw-window-handle = "0.6"
smithay-client-toolkit = { version = "0.19", default-features = false }
wayland-client = "0.31"
smol_str = "0.2"
