[package]
name = "kos_kit_server"
version = "0.1.0"
edition = "2021"
publish = false

[dependencies]
anyhow = "=1.0.104"
clap = { version = "=4.6.7", features = ["derive"] }
flate2 = "=1.1.10"
oxhttp = "=0.1.7"
oxigraph = { version = "0.5", default-features = false }
rayon-core = "=1.13.0"
sparesults = "=0.1.8"
tantivy = "=0.22.1"
url = "=2.5.8"
