[package]
name = "purrmitive"
version = "0.1.0"
edition = "2021"
publish = false

[dependencies]
rand = { version = "=0.7.3", features = ["small_rng"] }
rand_distr = "=0.2.2"
image = "=0.22.5"
nsvg = "=0.5.1"
gif = "=0.10.3"
clap = "=2.34.0"
num_cpus = "=1.17.0"
crossbeam-channel = "=0.4.4"
threadpool = "=1.8.1"
log = "=0.4.34"
env_logger = "=0.7.1"
