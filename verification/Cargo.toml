[package]
name = "ci_tool"
version = "0.1.0"
edition = "2021"
publish = false

[dependencies]
clap = { version = "*", features = ["derive", "env"] }
log = "*"
serde = { version = "*", features = ["derive"] }
serde_json = "*"
simple_logger = "*"
thiserror = "*"

[dev-dependencies]
json-digest = "*"
shell-words = "*"
