[package]
name = "tweetust"
version = "0.1.0"
edition = "2021"
publish = false

[dependencies]
oauthcli = "=1.0.4"
rustc-serialize = "=0.3.25"
url = "=1.7.2"
hyper = "=0.10.16"
