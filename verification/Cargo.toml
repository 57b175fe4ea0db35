[package]
name = "thunkpool"
version = "0.1.0"
edition = "2021"
publish = false

[dependencies]
num_cpus = "1"
rand = "0.8"

[dev-dependencies]
serde = "1"
bincode = "1"
