[package]
name = "ferris_unzip"
version = "0.1.0"
edition = "2021"
publish = false

[dependencies]
num_cpus = "=1.17.0"
clap = "=4.6.7"
zip = { version = "=9.2.2", default-features = false, features = ["deflate"] }
tar = "=0.4.46"
flate2 = "=1.1.10"
bzip2 = "=0.6.1"
liblzma = "=0.4.9"
sevenz-rust = { version = "=0.6.1", features = ["aes256"] }
unrar = "=0.5.8"
rayon = "=1.12.0"
indicatif = "=0.18.6"
