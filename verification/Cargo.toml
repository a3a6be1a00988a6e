[package]
name = "wikipedia_externallinks_fast_extraction"
version = "0.1.0"
edition = "2021"
publish = false

[dependencies]
nom-sql = "*"
rayon = "*"
