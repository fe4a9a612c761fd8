[package]
name = "cua_driver_workspace"
version = "0.1.0"
edition = "2021"
publish = false

[dependencies]
serde = { version = "1", features = ["derive"] }
serde_json = "1"
uuid = { version = "1", features = ["v4"] }
schemars = "*"
anyhow = "1"
async-trait = "*"
tokio = { version = "1", features = ["rt", "rt-multi-thread", "macros", "sync"] }
libc = "*"
core-foundation = "*"
core-graphics = "*"
objc2-app-kit = "*"
objc2-foundation = "*"
