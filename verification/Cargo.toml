[package]
name = "clickless"
version = "0.1.0"
edition = "2021"
publish = false

[dependencies]
serde = { version = "=1.0.229", features = ["derive"] }
toml = "=0.8.23"
enigo = "*"
evdev = "*"
x11rb = { version = "*", features = ["shape"] }
