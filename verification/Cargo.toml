[package]
name = "sennheiser_core"
version = "0.1.0"
edition = "2021"
publish = false

[dependencies]
anyhow = "=1.0.104"
bluer = { version = "=0.17.4", features = ["bluetoothd", "rfcomm"] }
btleplug = "=0.11.8"
clap = { version = "=4.6.7", features = ["derive"] }
# Not called: `bluer` and `btleplug` use it, and its `vendored` feature builds
# libdbus from source where the system has none.
dbus = { version = "=0.9.12", features = ["vendored"] }
futures-util = "=0.3.34"
slint = { version = "=1.18.1", default-features = false, features = ["compat-1-2", "std"] }
tokio = { version = "=1.54.1", features = ["full"] }
uuid = "=1.29.0"
zbus = { version = "=5.19.0", default-features = false, features = ["tokio"] }
