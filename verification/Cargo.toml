[package]
name = "ethlift"
version = "0.1.0"
edition = "2021"
publish = false

[dependencies]
serde_yaml = "=0.9.34+deprecated"
diffy = { version = "=0.5.2", features = ["color"] }
directories = "=6.0.0"
ethers-core = "=2.0.14"
clap = "=4.6.7"
tokio = { version = "=1.53.2", features = ["rt-multi-thread", "macros"] }
ethers-etherscan = "=2.0.14"
ethers-solc = "=2.0.14"
foundry-config = "=0.2.0"
