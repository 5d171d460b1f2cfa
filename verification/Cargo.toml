[package]
name = "rethnet_evm"
version = "0.1.0"
edition = "2021"
publish = false

[dependencies]
hashbrown = "=0.13.2"
revm = { version = "=3.3.0", default-features = false, features = ["std"] }
ruint = "=1.21.1"
thiserror = "=1.0.69"
tokio = { version = "=1.54.1", features = ["sync"] }
