[package]
name = "bootupd"
version = "0.1.0"
edition = "2021"
publish = false

[dependencies]
anyhow = "1"
bincode = "1"
chrono = { version = "0.4", features = ["serde"] }
fn-error-context = "0.2"
libsystemd = "0.7"
log = "0.4"
nix = { version = "0.26", features = ["fs"] }
openat = "0.1"
serde = { version = "1", features = ["derive"] }
serde_derive = "1"
serde_json = "1"
tokio = { version = "1", features = ["rt", "net", "time", "macros"] }
tokio-unix-ipc = { version = "0.2", features = ["serde"] }
typetag = "0.2"
