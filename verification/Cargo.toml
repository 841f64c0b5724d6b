[package]
name = "iroh_ex"
version = "0.1.0"
edition = "2021"
publish = false

[dependencies]
anyhow = "1"
async-trait = "0.1"
atty = "0.2"
automerge = "0.7"
data-encoding = "2"
futures-lite = "2"
hex = "0.4"
n0-future = "0.3"
num_cpus = "1"
once_cell = "1"
rand = "0.9"
rustler = "0.36"
serde = { version = "1", features = ["derive"] }
serde_json = "1"
tokio = { version = "1", features = ["full"] }
tracing = "0.1"
tracing-subscriber = { version = "0.3", features = ["env-filter"] }
uuid = { version = "1", features = ["v4"] }
