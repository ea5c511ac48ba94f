[package]
name = "pe_cleaner"
version = "0.1.0"
edition = "2021"
publish = false

[dependencies]
goblin = "=0.10.7"
rayon = "=1.12.0"
log = { version = "=0.4.34", features = ["max_level_off", "release_max_level_off"] }
clap = { version = "=4.6.7", features = ["derive"] }
indicatif = "=0.17.11"
memmap2 = "=0.9.12"
