[package]
name = "norm"
version = "0.1.0"
edition = "2021"
publish = false

[dependencies]
nix = { version = "=0.31.3", features = ["fs", "process", "ptrace", "signal"] }
log = "=0.4.34"
clap = "=4.6.7"
simple_logger = "=5.2.0"
os_pipe = "=1.2.3"
spawn-ptrace = "=0.1.2"

[dev-dependencies]
path-clean = "=1.0.1"
