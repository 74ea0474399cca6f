[package]
name = "emt"
version = "0.1.0"
edition = "2021"
publish = false

[dependencies]
async-trait = "0.1"
chrono = "0.4"
env_logger = "*"
itertools = "*"
log = "0.4"
sysinfo = "*"
thiserror = "*"
tokio = { version = "1", features = ["macros", "rt", "rt-multi-thread", "sync", "time"] }
users = "0.11"
