[package]
name = "earlyboot"
version = "0.1.0"
edition = "2021"
publish = false

[dependencies]
bitflags = "*"
coreboot-table = "*"
redox_syscall = "*"
spin = "*"
