[package]
name = "monte_carlo"
version = "0.1.0"
edition = "2021"
publish = false

[dependencies]
rand = "0.9"
rand_distr = "0.5"
rayon = "1"
statrs = { version = "0.18", default-features = false }
plotters = { version = "0.3", default-features = false, features = ["bitmap_backend", "line_series"] }
plotters-bitmap = { version = "0.3", default-features = false }
serde = { version = "1", features = ["derive"] }
serde_json = "1"
anyhow = "1"
