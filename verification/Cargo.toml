[package]
name = "scrap"
version = "0.1.0"
edition = "2021"
publish = false

[dependencies]
image = { version = "0.25", default-features = false, features = ["jpeg"] }
dbus = "0.9"
lazy_static = "1"
tokio = { version = "1", features = ["sync", "rt", "macros"] }
