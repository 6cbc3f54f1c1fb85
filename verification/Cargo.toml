[package]
name = "resonix"
version = "0.1.0"
edition = "2021"
publish = false

[dependencies]
petgraph = "0.6"
rand = { version = "0.8", features = ["small_rng"] }
nohash-hasher = "0.2"
uuid = { version = "1", features = ["v4"] }
thiserror = "1"
async-channel = "1"
async-trait = "0.1"
dyn-clone = "1"
log = "0.4"
cpal = "0.15"
