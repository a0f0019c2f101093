[package]
name = "droid_view"
version = "0.1.0"
edition = "2021"
publish = false

[dependencies]
anyhow = "*"
clap = { version = "*", features = ["derive"] }
dirs = "*"
eframe = { version = "*", default-features = false, features = ["glow", "x11", "default_fonts"] }
egui = "*"
serde = { version = "*", features = ["derive"] }
tokio = { version = "*", features = ["rt-multi-thread", "sync", "macros"] }
toml = "*"
tracing = "*"
tracing-subscriber = { version = "*", default-features = false, features = ["fmt"] }
