[package]
name = "lamlock"
version = "0.1.0"
edition = "2021"
publish = false

[dependencies]
crossbeam-queue = "=0.3.14"
linux-raw-sys = { version = "=0.12.1", features = ["auxvec", "elf", "elf_uapi", "errno", "general", "prctl"] }
rustix = { version = "=1.1.5", features = ["thread"] }
syscalls = "=0.8.1"
