[package]
name = "distributed_queue"
version = "0.1.0"
edition = "2021"
publish = false

[dependencies]
dotenv = "0.15"
log = "0.4"
prost = "0.13"
rocket = { version = "0.5", features = ["json"] }
serde = { version = "1", features = ["derive"] }
tokio = { version = "1", features = ["macros", "rt-multi-thread", "sync", "time"] }
tokio-postgres = "0.7"
tonic = "0.12"
