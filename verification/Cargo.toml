[package]
name = "scrap_wayland"
version = "0.1.0"
edition = "2021"
publish = false

[dependencies]
dbus = { version = "0.9", features = ["vendored"] }
gstreamer = "0.16"
gstreamer-app = "0.16"
gstreamer-video = "0.16"
lazy_static = "1.4"
libc = "0.2"
serde = { version = "1.0", features = ["derive"] }
serde_json = "1.0"
tracing = "0.1"
