[package]
name = "qsonaut"
version = "0.1.0"
edition = "2021"
publish = false

[dependencies]
serde = { version = "=1.0.229", features = ["derive"] }
thiserror = "=2.0.21"
image = { version = "=0.25.10", default-features = false }
komitoto-sstv = "=0.1.1"
mfsk-core = { version = "=0.11.0", features = ["fst4", "wspr", "jt9", "jt65", "q65", "msk144"] }
