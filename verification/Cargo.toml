[package]
name = "journey_planner"
version = "0.1.0"
edition = "2021"
publish = false

[dependencies]
petgraph = "*"
chrono = "*"
reqwest = { version = "*", default-features = false, features = ["blocking", "json"] }
serde = { version = "*", features = ["derive"] }
serde_json = "*"
serde_tuple = "*"
serde_repr = "*"
