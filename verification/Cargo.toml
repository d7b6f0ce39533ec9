[package]
name = "retty"
version = "0.1.0"
edition = "2021"
publish = false

[dependencies]
chashmap = "=2.2.2"
chrono = "=0.4.45"
crossbeam = "=0.8.5"
mio = "=0.6.23"
rayon = "=1.12.0"
