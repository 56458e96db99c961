[package]
name = "graphs"
version = "0.1.0"
edition = "2021"
publish = false

[dependencies]
bufkit-data = "=0.26.0"
chrono = "=0.4.45"
crossbeam = "=0.8.5"
directories = "=6.0.0"
metfor = "=0.10.0"
rayon = "=1.12.0"
sounding-analysis = "=0.19.1"
sounding-bufkit = "=0.18.0"
strum = "=0.27.2"
