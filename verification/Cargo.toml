[package]
name = "kmsvnc"
version = "0.1.0"
edition = "2021"
publish = false

[dependencies]
anyhow = "1"
clap = { version = "4", features = ["derive"] }
drm = "0.14"
drm-ffi = "0.9"
drm-fourcc = "2"
input-linux = "0.7"
rustix = { version = "0.38", features = ["mm", "fs"] }
tokio = { version = "1", features = ["rt-multi-thread", "macros", "net", "sync", "signal", "time"] }
tracing = "0.1"
tracing-subscriber = { version = "0.3", features = ["env-filter"] }
