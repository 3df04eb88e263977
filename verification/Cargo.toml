[package]
name = "gatherers"
version = "0.1.0"
edition = "2021"
publish = false

[dependencies]
directories = "*"
regex = "*"
chrono = "*"
surf = { version = "*", default-features = false, features = ["h1-client-rustls"] }
serde = { version = "1", features = ["derive"] }
serde_json = "1"
toml = "*"
bpaf = { version = "*", features = ["derive"] }
smol = "*"
async-channel = "*"
async-trait = "*"
futures = "*"
log = "*"
fern = "*"
