[package]
name = "cretonne_semantics"
version = "0.1.0"
edition = "2021"
publish = false

[dependencies]
z3 = "0.10.0"
docopt = "=1.1.1"
env_logger = "=0.11.11"
log = "=0.4.34"
