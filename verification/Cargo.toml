[package]
name = "split51"
version = "0.1.0"
edition = "2021"
publish = false

[dependencies]
anyhow = "1"
muda = { version = "0.15", default-features = false }
parking_lot = "0.12"
ringbuf = "0.4"
rubato = "0.15"
serde = { version = "1", features = ["derive"] }
toml = "0.8"
tracing = "0.1"
tracing-subscriber = "0.3"
tray-icon = { version = "0.19", default-features = false }
winit = { version = "0.30", default-features = false, features = ["rwh_06"] }
