[package]
name = "scalar_node"
version = "0.1.0"
edition = "2021"
publish = false

[dependencies]
alloy-primitives = { version = "=0.8.26", default-features = false, features = ["std"] }
alloy-eips = { version = "=0.3.6", default-features = false, features = ["std"] }
alloy-consensus = { version = "=0.3.6", default-features = false, features = ["std"] }
revm-primitives = { version = "=10.0.0", default-features = false, features = ["std"] }
revm = { version = "14", default-features = false, features = ["std"] }
anyhow = "=1.0.104"
async-stream = "=0.3.6"
async-trait = "=0.1.92"
clap = { version = "=4.6.7", features = ["derive"] }
derivative = "=2.2.0"
dotenvy = "=0.15.7"
envy = "=0.4.2"
eyre = "=0.6.14"
futures-util = "=0.3.34"
serde = { version = "=1.0.229", features = ["derive"] }
tokio = { version = "=1.54.1", features = ["rt-multi-thread", "macros", "sync", "time"] }
tokio-stream = "=0.1.19"
tracing = "=0.1.44"
