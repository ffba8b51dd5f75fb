[package]
name = "hal9001"
version = "0.1.0"
edition = "2021"
publish = false

[dependencies]
anyhow = "*"
crossterm = { version = "*", features = ["event-stream"] }
directories = "*"
fatfs = "*"
flate2 = "*"
futures = "*"
libc = "*"
portable-pty = "*"
ratatui = "*"
serde = { version = "*", features = ["derive"] }
serde_json = "*"
sha2 = "*"
sysinfo = "*"
tokio = { version = "*", features = ["full"] }
toml = "*"
tracing = "*"
tracing-subscriber = { version = "*", features = ["env-filter"] }
unicode-width = "*"
vt100 = "*"
zbus = { version = "*", default-features = false, features = ["tokio"] }

[dev-dependencies]
tempfile = "*"
