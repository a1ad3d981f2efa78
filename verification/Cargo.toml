[package]
name = "amadeus_core"
version = "0.1.0"
edition = "2021"
publish = false

[dependencies]
streaming_algorithms = "0.3"
rand = "0.7"
either = "1"
replace_with = "0.1"
futures = "0.3"
serde = { version = "1", features = ["derive"] }
chrono = "0.4"
flate2 = "1"
http = "0.2"
url = "2"
csv = "1"
