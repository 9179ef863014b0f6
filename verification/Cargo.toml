[package]
name = "mars"
version = "0.1.0"
edition = "2021"
publish = false

[dependencies]
rand = "0.7"
anyhow = "1"
rayon = "1"
indicatif = { version = "0.15", features = ["with_rayon"] }
structopt = "0.3"
thiserror = "1"
crossbeam = "0.7"
termion = "1.5"
