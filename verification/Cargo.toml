[package]
name = "libreland"
version = "0.1.0"
edition = "2021"
publish = false

[dependencies]
anyhow = "1"
clap = { version = "4", features = ["derive"] }
drm = "0.14"
png = "=0.18.1"
serde = { version = "1", features = ["derive"] }
serde_json = "1"
time = { version = "0.3", features = ["formatting", "macros"] }
tracing = "0.1"
tracing-appender = "0.2"
tracing-subscriber = { version = "0.3", features = ["env-filter"] }
xcursor = "=0.3.11"
xdg = "=3.0.0"
xkbcommon = "=0.9.0"

[dev-dependencies]
xkeysym = "=0.2.1"
