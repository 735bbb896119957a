[package]
name = "task_engine"
version = "0.1.0"
edition = "2021"
publish = false

[dependencies]
dashmap = "*"
rocksdb = { version = "*", default-features = false }
tokio = { version = "*", features = ["rt-multi-thread", "macros", "sync", "time", "net"] }
clap = "*"
fork = "*"
signal-hook = "*"
sysinfo = "*"
num_cpus = "*"
log = "*"
anyhow = "*"
