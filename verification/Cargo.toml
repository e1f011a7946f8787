[package]
name = "employee_store"
version = "0.1.0"
edition = "2021"
publish = false

[dependencies]
validator = "=0.21.0"
warp = { version = "=0.4.3", features = ["server"] }
tokio = { version = "=1.53.2", features = ["macros", "rt-multi-thread", "sync"] }
serde = { version = "=1.0.229", features = ["derive"] }
serde_json = "*"
log = "=0.4.34"
env_logger = "*"
dotenv = "=0.15.0"
chrono = "=0.4.45"
thiserror = "*"
