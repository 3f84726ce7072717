[package]
name = "ara_forest"
version = "0.1.0"
edition = "2021"
publish = false

[dependencies]
ara_parser = "=0.6.6"
ara_reporting = "=0.6.1"
ara_source = "=0.2.0"
bincode = "=2.0.1"
log = "=0.4.34"
rayon = "=1.12.0"
walkdir = "=2.5.0"

[dev-dependencies]
rustc-hash = "=1.1.0"
