[package]
name = "activity-graph"
version = "0.1.0"
edition = "2021"
publish = false

[dependencies]
chrono = "0.4"
hyper = "0.13"
lazy_static = "1.4"
pathdiff = "0.2"
rayon = "1"
structopt = "0.3"
term_size = "0.3"
tokio = { version = "0.2", features = ["full"] }
