[package]
name = "filereduce"
version = "0.1.0"
edition = "2021"
publish = false

[dependencies]
regex = "=1.13.1"
serde = { version = "=1.0.229", features = ["derive"] }
serde_json = "=1.0.154"
serde_yaml = "=0.9.34"
thiserror = "=1.0.69"
async-trait = "=0.1.92"
tokio = { version = "=1.54.1", features = ["rt-multi-thread", "macros"] }
clap = { version = "=4.6.7", features = ["derive"] }
quick-xml = "=0.37.5"
tracing-subscriber = "=0.3.23"
bb8 = "=0.9.1"
bb8-tiberius = "=0.16.0"
tiberius = "=0.12.3"
