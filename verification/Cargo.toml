[package]
name = "ttyaskpass"
version = "0.1.0"
edition = "2021"
publish = false

[dependencies]
bstr = "1"
crossterm = "0.11"
libc = "0.2"
mortal = "0.2"
rand = "0.8"
seckey = "*"
sha3 = "0.10"
termion = "1"
url = "1"
