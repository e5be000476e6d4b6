[package]
name = "netmigrate"
version = "0.1.0"
edition = "2021"
publish = false

[dependencies]
anyhow = "1"
cidr = "*"
log = "0.4"
quick-xml = { version = "*", features = ["serialize"] }
regex = "1"
serde = { version = "1", features = ["derive"] }
serde_ignored = "*"
serde_path_to_error = "*"
tokio = { version = "1", features = ["macros", "rt-multi-thread"] }
uuid = { version = "1", features = ["v4"] }
