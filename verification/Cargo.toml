[package]
name = "roboscapesim"
version = "0.1.0"
edition = "2021"
publish = false

[dependencies]
rand = "0.9"
dashmap = "6"
axum = "0.8"
tokio = { version = "1", features = ["macros", "rt-multi-thread", "net", "time"] }
serde = { version = "1", features = ["derive"] }
serde_json = "1"
reqwest = { version = "0.12", default-features = false, features = ["json"] }
log = "0.4"
simple_logger = "5"
tower-http = { version = "0.6", features = ["cors", "timeout"] }
once_cell = "1"
async-once-cell = "0.5"
