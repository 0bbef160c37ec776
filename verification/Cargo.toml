[package]
name = "cloud_vmm"
version = "0.1.0"
edition = "2021"
publish = false

[dependencies]
anyhow = "1"
libc = "0.2"
log = "0.4"
serde = { version = "1", features = ["derive"] }
serde_json = "1"
vm-memory = { version = "0.16", features = ["backend-atomic", "backend-bitmap", "backend-mmap"] }
vmm-sys-util = "0.14"
