[package]
name = "rpictl-mcp"
version = "0.1.0"
edition = "2021"
publish = false

[dependencies]
libc = "0.2"
rmcp = { version = "3.1", features = ["server", "macros", "transport-io"] }
serde = { version = "1", features = ["derive"] }
serde_json = "1"
serialport = { version = "4", default-features = false }
tokio = { version = "1", features = ["macros", "rt-multi-thread"] }
uuid = { version = "1", features = ["v4"] }
