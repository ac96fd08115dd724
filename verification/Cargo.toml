[package]
name = "staticdir"
version = "0.1.0"
edition = "2021"
publish = false

[dependencies]
percent-encoding = "2"
mime_guess = "2"
mime = "0.3"
http = "1"
tide = "0.16"
async-std = "1"
