[package]
name = "infospace"
version = "0.1.0"
edition = "2021"
publish = false

[dependencies]
ig_tools = "*"
serde = { version = "*", features = ["derive"] }
confy = "*"
dirs = "*"
