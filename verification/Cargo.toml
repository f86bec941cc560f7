[package]
name = "virtio_console"
version = "0.1.0"
edition = "2021"
publish = false

[dependencies]
epoll = "*"
libc = "*"
vm-memory = { version = "*", features = ["backend-mmap"] }
vmm-sys-util = "*"
