[package]
name = "rewind"
version = "0.1.0"
edition = "2021"
publish = false

[dependencies]
ashpd = "0.9"
evdev = "0.12"
gstreamer = "0.23"
gstreamer-app = "0.23"
gtk4 = "0.9"
libadwaita = { version = "0.7", features = ["v1_4"] }
libc = "0.2"
pipewire = "0.8"
pollster = "0.3"
x11rb = { version = "0.13", features = ["composite", "shm"] }
