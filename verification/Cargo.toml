[package]
name = "libra"
version = "0.1.0"
edition = "2021"
publish = false

[dependencies]
git-internal = "*"
diffy = "*"
url = "*"
hex = "*"
regex = "*"
clap = { version = "4", features = ["derive"] }
serde = { version = "1", features = ["derive"] }
serde_json = "1"
thiserror = "2"
dirs = "*"
rpassword = "*"
