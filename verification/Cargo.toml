[package]
name = "nuker"
version = "0.1.0"
edition = "2021"
publish = false

[dependencies]
petgraph = "0.6"
regex = "1"
colored = "2"
toml = "0.5"
serde = { version = "1", features = ["derive"] }
humantime-serde = "1"
clap = "2.33"
async-trait = "0.1"
tracing = "0.1"
log = "0.4"
tokio = { version = "1", features = ["rt-multi-thread", "macros"] }
rusoto_core = { version = "0.48", default-features = false, features = ["rustls"] }
rusoto_credential = "0.48"
rusoto_ec2 = { version = "0.48", default-features = false, features = ["rustls"] }
rusoto_rds = { version = "0.48", default-features = false, features = ["rustls"] }
rusoto_redshift = { version = "0.48", default-features = false, features = ["rustls"] }
