[package]
name = "hydra_tnc"
version = "0.1.0"
edition = "2021"
publish = false

[dependencies]
anyhow = "=1.0.104"
eframe = { version = "=0.35.0", default-features = false, features = ["default_fonts", "glow", "wayland", "x11"] }
egui = "=0.35.0"
egui_dock = "=0.20.1"
poll-promise = { version = "=0.3.0", features = ["tokio"] }
serde = { version = "1", features = ["derive"] }
serde_json = "1"
tokio = { version = "=1.54.1", features = ["full"] }
tracing = "0.1"
tracing-subscriber = "0.3"
