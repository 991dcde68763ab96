[package]
name = "payments_engine_example"
version = "0.1.0"
edition = "2021"
publish = false

[dependencies]
csv = "1"
env_logger = "0.9"
log = "0.4"
num_cpus = "1"
rand = "0.8"
rayon = "1"
serde = { version = "1", features = ["derive"] }
structopt = "0.3"
