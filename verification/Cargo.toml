[package]
name = "jsonrpc_client"
version = "0.1.0"
edition = "2021"
publish = false

[dependencies]
serde_json = "1"
serde = { version = "1", features = ["derive"] }
url = "2"
syn = { version = "1", features = ["full"] }
quote = "1"
proc-macro2 = "1"
async-trait = "0.1"
reqwest = { version = "0.11", default-features = false, features = ["json"] }
ureq = { version = "2", default-features = false, features = ["json"] }
