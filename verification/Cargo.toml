[package]
name = "ethers_abirpc"
version = "0.1.0"
edition = "2021"
publish = false

[dependencies]
url = "2"
async-trait = "0.1"
ethers-providers = { version = "2", features = ["ipc"] }
ethers-core = "2"
