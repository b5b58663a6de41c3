[package]
name = "rustaclysm_core"
version = "0.1.0"
edition = "2021"
publish = false

[dependencies]
pathfinding = "=4.16.0"
serde_json = "1"
glob = "0.3"
