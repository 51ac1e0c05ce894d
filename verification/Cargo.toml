[package]
name = "rux"
version = "0.1.0"
edition = "2021"
publish = false

[dependencies]
num_cpus = "*"
nix = { version = "*", features = ["event", "socket", "signal", "sched", "net", "fs", "uio", "poll", "resource", "feature", "process"] }
libc = "*"
