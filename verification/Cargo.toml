[package]
name = "knot"
version = "0.1.0"
edition = "2021"
publish = false

[dependencies]
chrono = "0.4"
libc = "0.2"
serde = { version = "1", features = ["derive"] }
serde_json = "1"
tokio = { version = "1", features = ["macros", "rt", "rt-multi-thread", "sync", "time"] }
