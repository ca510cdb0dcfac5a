[package]
name = "cfd_raytrace"
version = "0.1.0"
edition = "2021"
publish = false

[dependencies]
anyhow = "1"
bincode = "1"
csv = "1"
flate2 = "1"
nalgebra = "*"
npyz = { version = "*", features = ["npz"] }
rstar = "*"
serde = { version = "1", features = ["derive"] }
thiserror = "1"
