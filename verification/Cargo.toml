[package]
name = "hyprcircl"
version = "0.1.0"
edition = "2021"
publish = false

[dependencies]
serde = { version = "1", features = ["derive"] }
serde_json = "1"
toml = "*"
libc = "0.2"
signal-hook = "0.3"
gtk4 = "*"
gdk4 = "*"
gtk4-layer-shell = "*"
