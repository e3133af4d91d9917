[package]
name = "puzzle_coords"
version = "0.1.0"
edition = "2021"
publish = false

[dependencies]
disk-based-bfs = "=0.1.0"
rayon = "=1.12.0"
tracing = "=0.1.44"
tracing-subscriber = { version = "=0.3.23", features = ["env-filter"] }
