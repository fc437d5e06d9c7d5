[package]
name = "xtrooder"
version = "0.1.0"
edition = "2021"
publish = false

[dependencies]
heapless = "=0.8.0"
byteorder = "=1.5.0"
measurements = "=0.11.1"
micromath = "=2.1.0"
futures = "=0.3.34"
pid-lite = "1"
