[package]
name = "traversal_engine"
version = "0.1.0"
edition = "2021"
publish = false

[dependencies]
anyhow = "1"
async-trait = "0.1"
gremlin-client = "*"
rocksdb = "*"
tui = "0.19"
