[package]
name = "redumper_gui"
version = "0.1.0"
edition = "2021"
publish = false

[dependencies]
dirs = "=7.0.0"
eframe = { version = "=0.37.0", default-features = false, features = ["default_fonts", "glow", "x11", "persistence", "links"] }
fs2 = "=0.4.3"
image = { version = "=0.25.10", default-features = false, features = ["png"] }
libc = "=0.2.191"
open = "=5.4.5"
rfd = "=0.17.2"
serde = { version = "=1.0.229", features = ["derive"] }
time = "=0.3.55"
winit = "=0.30.13"
zip = { version = "=9.2.2", default-features = false, features = ["deflate", "time"] }
zstd = "=0.14.3"
