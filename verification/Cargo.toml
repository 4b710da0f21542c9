[package]
name = "kaadan"
version = "0.1.0"
edition = "2021"
publish = false

[dependencies]
image = { version = "*", default-features = false, features = ["png", "jpeg"] }
glam = "*"
hecs = "*"
tracing = "*"
tracing-subscriber = { version = "*", features = ["env-filter", "fmt"] }
thiserror = "*"
serde = { version = "*", features = ["derive"] }
ron = "*"
bytemuck = { version = "*", features = ["derive"] }
notify = "*"
rodio = "0.20"
rapier2d = "0.22"
nalgebra = "0.33"
winit = "0.30"
raw-window-handle = "0.6"
