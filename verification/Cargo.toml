[package]
name = "hdt"
version = "0.1.0"
edition = "2021"
publish = false

[dependencies]
bytesize = "2"
fs2 = "0.4"
log = "0.4"
oxrdf = "0.3"
oxttl = "0.2"
sucds = "0.8"
thiserror = "2"
