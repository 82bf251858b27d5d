[package]
name = "portal_access"
version = "0.1.0"
edition = "2021"
publish = false

[dependencies]
cosmic-client-toolkit = "=0.2.0"
log = "=0.4.34"
once_cell = "=1.21.4"
tokio = { version = "=1.54.1", features = ["rt", "sync"] }
zbus = { version = "=4.4.0", default-features = false, features = ["tokio"] }
zvariant = "=4.2.0"
