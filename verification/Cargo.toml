[package]
name = "scratchbar"
version = "0.1.0"
edition = "2021"
publish = false

[dependencies]
anyhow = "=1.0.104"
base64 = "=0.22.1"
chrono = "=0.4.45"
crossterm = { version = "=0.29.0", features = ["event-stream", "serde"] }
flexi_logger = "=0.31.10"
futures = "=0.3.34"
hyprland = "=0.4.0-beta.2"
image = { version = "=0.25.10", default-features = false, features = ["png"] }
libpulse-binding = "=2.30.1"
log = "=0.4.35"
postcard = { version = "=1.1.3", features = ["use-std"] }
serde = { version = "=1.0.229", features = ["derive", "rc"] }
serde_json = "=1.0.154"
system-tray = "=0.8.9"
tempfile = "=3.27.0"
tokio = { version = "=1.54.1", features = ["full"] }
tokio-stream = { version = "=0.1.19", features = ["sync"] }
tokio-util = { version = "=0.7.20", features = ["rt", "time"] }
unicode-segmentation = "=1.13.3"
unicode-width = "=0.2.3"
zbus = { version = "=5.19.0", default-features = false, features = ["tokio"] }
