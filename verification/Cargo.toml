[package]
name = "whirl"
version = "0.1.0"
edition = "2021"
publish = false

[dependencies]
concurrent-queue = "*"
io-uring = "*"
futures-util = { version = "*", features = ["io"] }
libc = "*"
once_cell = "*"
parking_lot = "*"
async-task = "*"
num_cpus = "*"
