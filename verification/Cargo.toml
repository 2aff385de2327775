[package]
name = "encode"
version = "0.1.0"
edition = "2021"
publish = false

[dependencies]
gtk4 = "0.9"
glib = "0.20"
gio = "0.20"
sourceview5 = "0.9"
rusqlite = { version = "*", features = ["bundled"] }
serde_json = "1"
pyright = "*"
libloading = "0.8"
lazy_static = "1"
