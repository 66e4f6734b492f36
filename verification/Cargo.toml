[package]
name = "notification_behaviour"
version = "0.1.0"
edition = "2021"
publish = false

[dependencies]
notify-rust = "=4.18.2"
serde_json = "=1.0.154"
uuid = "=1.29.0"
log = "=0.4.34"
indradb-lib = "=3.0.4"
inexor-rgf-core-model = "=0.9.1"
