[package]
name = "mcadmin"
version = "0.1.0"
edition = "2021"
publish = false

[dependencies]
rand = "0.7"
headers = "0.3"
mime = "0.3"
serde_json = "1"
tokio = { version = "0.2", features = ["full"] }
hyper = "0.13"
hyper-tls = "0.4"
reqwest = "0.10"
yup-oauth2 = "4"
log = "0.4"
env_logger = "0.7"
num_cpus = "1"
