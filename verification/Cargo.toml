[package]
name = "tart_gnss_acquire"
version = "0.3.2"
edition = "2021"
publish = false

[dependencies]
chrono = "0.4"
hdf5-reader = "0.9"
hdf5-writer = "0.9"
num-complex = "0.4"
rayon = "1"
rustfft = "6"
serde = { version = "1", features = ["derive"] }
serde_json = "1"
