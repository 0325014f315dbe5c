[package]
name = "camellia"
version = "0.1.0"
edition = "2021"
publish = false

[dependencies]
nix = { version = "0.29", features = ["mman", "poll", "net", "socket", "sched", "mount", "fs", "process", "user"] }
memmap2 = "0.9"
thiserror = "1"
anyhow = "1"
libc = "0.2"
log = "0.4"
tracing = "0.1"
rlimit = "0.10"
ctrlc = "3"
once_cell = "1"
tempdir = "0.3"
