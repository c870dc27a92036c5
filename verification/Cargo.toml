[package]
name = "ruview_swarm"
version = "0.1.0"
edition = "2021"
publish = false

[dependencies]
serde = { version = "1", features = ["derive"] }
thiserror = "2"
tokio = { version = "1", features = ["sync", "net", "rt", "macros", "time"] }
async-trait = "0.1"
ed25519-dalek = "2.2.0"
