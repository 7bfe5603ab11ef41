[package]
name = "cgroups_exporter"
version = "0.1.0"
edition = "2021"
publish = false

[dependencies]
regex = "=1.13.1"
cgroups-rs = { version = "=0.5.1", features = ["serde"] }
procfs = "=0.18.0"
serde = { version = "=1.0.229", features = ["derive"] }
serde_prom = "=0.2.0"
anyhow = "=1.0.104"
