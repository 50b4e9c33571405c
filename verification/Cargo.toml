[package]
name = "worker_pools"
version = "0.1.0"
edition = "2021"
publish = false

[dependencies]
priority-queue = "=2.7.0"
rand = "=0.9.5"
