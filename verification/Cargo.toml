[package]
name = "xdp-api-guard"
version = "0.1.0"
edition = "2021"
publish = false

[dependencies]
anyhow = "=1.0.104"
aya = "=0.14.0"
aya-ebpf = "=0.1.1"
aya-log = "=0.3.0"
aya-log-ebpf = "=0.1.0"
clap = { version = "=4.6.7", features = ["derive"] }
env_logger = "=0.11.11"
libc = "=0.2.191"
log = "=0.4.34"
network-types = "=0.0.7"
tokio = { version = "=1.54.1", features = ["macros", "rt", "rt-multi-thread", "net", "signal", "time"] }
