[package]
name = "blackhole_linux"
version = "0.1.0"
edition = "2021"
publish = false

[dependencies]
serde = { version = "1", features = ["derive"] }
serde_json = "1"
libc = "0.2"
nix = { version = "0.31", features = ["ioctl", "term", "fs", "signal", "process"] }
ureq = "3"
ctrlc = "3"
daemonize = "0.5"
landlock = "0.4"
seccompiler = "0.5"
thiserror = "2"
tempfile = "3"

[dev-dependencies]
serde_yaml_ng = "0.10"
