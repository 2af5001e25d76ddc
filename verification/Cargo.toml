[package]
name = "ray_tracing_3d"
version = "0.1.0"
edition = "2021"
publish = false

[dependencies]
clap = { version = "4", features = ["derive"] }
float-cmp = "0.9"
image = { version = "0.24", default-features = false, features = ["png", "jpeg"] }
rand = "0.8"
rand_distr = "0.4"
rand_xorshift = "0.3"
thiserror = "1"
