[package]
name = "kernel_mm"
version = "0.1.0"
edition = "2021"
publish = false

[dependencies]
heapless = "0.8"
aarch64-cpu = "*"
tock-registers = "*"
