[package]
name = "essential_node"
version = "0.1.0"
edition = "2021"
publish = false

[dependencies]
blake2b-rs = "=0.2.0"
crossbeam = "=0.8.5"
essential-check = "=0.14.0"
essential-hash = "=0.9.0"
essential-node-db = "=0.5.0"
essential-node-types = "=0.3.0"
essential-types = "=0.7.0"
futures = "*"
num_cpus = "*"
reqwest = { version = "*", default-features = false, features = ["http2", "stream"] }
rusqlite = { version = "=0.32.1", features = ["bundled"] }
serde = { version = "*", features = ["derive"] }
serde_json = "*"
sparse-merkle-tree = "=0.6.1"
thiserror = "*"
tokio = { version = "=1.54.1", features = ["full"] }
tokio-stream = { version = "*", features = ["sync"] }
tokio-util = { version = "*", features = ["codec", "io"] }
tracing = "*"
uuid = { version = "*", features = ["v4"] }
