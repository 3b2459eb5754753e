[package]
name = "anystream"
version = "0.4.0"
edition = "2021"
publish = false

[dependencies]
rand = "0.8"
rand_distr = "0.4"
clap = { version = "4", features = ["derive"] }
confy = "*"
serde = { version = "1", features = ["derive"] }
serde_json = "1"
mongodb = { version = "2", default-features = false, features = ["sync"] }
semver = "1"
separator = "*"
btreemultimap = "*"
cartesian = "*"
flot = "*"
