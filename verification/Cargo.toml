[package]
name = "taiko_batch_revenue"
version = "0.1.0"
edition = "2021"
publish = false

[dependencies]
alloy = { version = "=2.5.0", default-features = false, features = ["std", "contract", "provider-http", "reqwest", "rpc-types-eth"] }
futures = "*"
thiserror = "*"
tokio = { version = "*", default-features = false, features = ["macros", "rt-multi-thread"] }
