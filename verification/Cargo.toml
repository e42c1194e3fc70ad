[package]
name = "supervisor"
version = "0.1.0"
edition = "2021"
publish = false

[dependencies]
serde_json = { version = "=1.0.154", features = ["float_roundtrip"] }
serde = { version = "=1.0.229", features = ["derive"] }
tokio = { version = "=1.54.1", features = ["full"] }
zbus = { version = "=5.19.0", default-features = false, features = ["tokio"] }
enumflags2 = "=0.7.12"
futures-util = "=0.3.34"
inotify = "=0.11.5"
libc = "=0.2.191"
nix = { version = "=0.30.1", features = ["time", "user", "signal", "process", "fs"] }
niri-ipc = "=26.4.0"
nonstick = "=0.1.2"
wayland-client = "=0.31.15"
wayland-protocols-wlr = { version = "=0.3.12", features = ["client"] }

[dev-dependencies]
tempfile = "=3.27.0"
