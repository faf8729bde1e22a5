[package]
name = "page"
version = "0.1.0"
edition = "2021"
publish = false

[dependencies]
age = "=0.11.5"
anyhow = "1"
arboard = { version = "3", default-features = false }
clap = { version = "4", features = ["derive"] }
directories-next = "2"
keepass = "0.7"
keyring = { version = "3", features = ["apple-native", "windows-native", "linux-native"] }
rpassword = "5"
toml = "=0.5.11"
whoami = "1"
