[package]
name = "normalized_resource"
version = "0.1.0"
edition = "2021"
publish = false

[dependencies]
regex = "=1.13.1"
actix-service = "=0.4.2"
actix-http = "=0.2.11"
futures = "=0.1.31"
log = "=0.4.34"
chrono = "=0.4.19"
