[package]
name = "echo_bench"
version = "0.1.0"
edition = "2021"
publish = false

[dependencies]
liburing-rs = "*"
libc = "*"
memmap2 = "*"
nix = "*"
bytemuck = "*"
