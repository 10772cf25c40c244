[package]
name = "pilatus_aravis"
version = "0.1.0"
edition = "2021"
publish = false

[dependencies]
anyhow = "*"
aravis = "*"
aravis-sys = "*"
bytemuck = { version = "*", features = ["extern_crate_alloc"] }
futures = "*"
minfac = "*"
pilatus = "*"
pilatus-axum = "*"
pilatus-engineering = "*"
serde = { version = "*", features = ["derive"] }
thiserror = "*"
tokio = { version = "*", features = ["full"] }
tokio-stream = { version = "*", features = ["sync"] }
tracing = "*"
