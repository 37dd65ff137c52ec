[package]
name = "xterm_rs"
version = "0.1.0"
edition = "2021"
publish = false

[dependencies]
anyhow = "1"
axum = { version = "0.8", features = ["ws"] }
base64 = "0.22"
bytes = "1"
clap = { version = "4", features = ["derive"] }
flate2 = "1"
memchr = "2"
notify-debouncer-mini = "*"
once_cell = "1"
portable-pty = "*"
serde = { version = "1", features = ["derive"] }
serde_json = "1"
thiserror = "*"
tokio = { version = "1", features = ["full"] }
toml = "*"
tower-http = { version = "0.6", features = ["fs"] }
unicode-width = "*"
unsigned-varint = "0.8"
zstd = "0.13"
