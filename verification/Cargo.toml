[package]
name = "rasterkit"
version = "0.1.0"
edition = "2021"
publish = false

[dependencies]
flate2 = "=1.1.10"
jpeg-decoder = { version = "=0.3.2", features = ["platform_independent"] }
dashmap = "=6.2.1"
crossbeam = "=0.8.5"
rayon = "=1.12.0"
memmap2 = "=0.9.12"
libc = "=0.2.191"
proj = "=0.31.0"
csv = "=1.4.0"
serde = { version = "=1.0.229", features = ["derive"] }
axum = { version = "=0.7.9", features = ["multipart"] }
tokio = { version = "=1.54.1", features = ["full"] }
tower = "=0.5.3"
tower-http = { version = "=0.6.11", features = ["cors"] }
