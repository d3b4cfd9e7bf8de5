[package]
name = "mud_domain"
version = "0.1.0"
edition = "2021"
publish = false

[dependencies]
rand = "0.7"
serde = { version = "1", features = ["derive"] }
serde_json = "1"
hocon = "*"
clap = "4"
log = "0.4"
itertools = "*"
rand_distr = "0.3"
