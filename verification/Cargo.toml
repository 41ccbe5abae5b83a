[package]
name = "conduit"
version = "0.1.0"
edition = "2021"
publish = false

[dependencies]
http = "0.2"
time = "0.2"
conduit-mime-types = "*"
filetime = "*"
semver = "*"
