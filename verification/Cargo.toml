[package]
name = "loadbench"
version = "0.1.0"
edition = "2021"
publish = false

[dependencies]
sysinfo = "0.29"
plotters = { version = "0.3", default-features = false, features = ["bitmap_backend", "bitmap_encoder", "line_series"] }
ratatui = "0.23"
crossterm = "0.27"
axum = "0.6"
tokio = { version = "1", features = ["full"] }
serde = { version = "1", features = ["derive"] }
serde_json = "1"
uuid = { version = "1", features = ["v4"] }
