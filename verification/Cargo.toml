[package]
name = "cosmic-applet-ram"
version = "0.1.0"
edition = "2021"
publish = false

[dependencies]
once_cell = "=1.21.4"
serde = { version = "=1.0.229", features = ["derive"] }
sysinfo = "=0.39.6"
tokio = { version = "=1.54.1", features = ["macros", "sync", "time"] }
tracing = "=0.1.44"
