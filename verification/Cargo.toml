[package]
name = "niri_input_portal"
version = "0.1.0"
edition = "2021"
publish = false

[dependencies]
anyhow = "1"
calloop = "*"
reis = "*"
rustix = { version = "1", features = ["fs", "pipe"] }
serde = { version = "1", features = ["derive"] }
serde_json = "1"
smithay-client-toolkit = "*"
tokio = { version = "1", features = ["full"] }
tracing = "0.1"
tracing-subscriber = { version = "0.3", features = ["env-filter"] }
wayland-client = "*"
wayland-protocols = { version = "*", features = ["client", "staging", "unstable"] }
zbus = { version = "5", default-features = false, features = ["tokio"] }
zvariant = "5"
