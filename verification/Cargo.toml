[package]
name = "philostone"
version = "0.1.0"
edition = "2021"
publish = false

[dependencies]
argh = "*"
async-broadcast = "*"
async-lock = "*"
async-tungstenite = "*"
compact_str = { version = "*", features = ["serde"] }
easy-parallel = "*"
eyre = "*"
futures = "*"
heapless = "0.8"
num_cpus = "1"
serde = { version = "1", features = ["derive"] }
serde_json = "1"
slotmap = "1"
smol = "*"
thiserror = "*"
tracing = "*"
tracing-subscriber = "*"
tungstenite = "*"
