[package]
name = "bux"
version = "0.1.0"
edition = "2021"
publish = false

[dependencies]
anyhow = "1"
clap = { version = "4", features = ["derive"] }
clap_complete = "4"
dirs = "*"
libc = "0.2"
oci-client = "*"
postcard = { version = "1", features = ["alloc"] }
rusqlite = "*"
serde = { version = "1", features = ["derive"] }
serde_json = "1"
sha2 = "0.10"
tar = "0.4"
thiserror = "*"
tokio = { version = "1", features = ["rt", "macros", "io-util", "net", "process", "fs", "time", "sync"] }
tokio-vsock = "*"
