[package]
name = "ranked_voting"
version = "0.1.0"
edition = "2021"
publish = false

[dependencies]
ark-bls12-381 = "=0.3.0"
ark-ec = "=0.3.0"
ark-ff = "=0.3.0"
ark-serialize = "=0.3.0"
ark-std = "=0.3.0"
base64 = "=0.22.1"
curdleproofs = { version = "=0.0.1", default-features = false, features = ["std"] }
merlin = "=3.0.0"
rocket = { version = "=0.5.2", features = ["json"] }
