[package]
name = "davcore"
version = "0.1.0"
edition = "2021"
publish = false

[dependencies]
htmlescape = "=0.3.1"
xmltree = "=0.12.0"
time = { version = "=0.3.55", features = ["local-offset"] }
http = "=1.5.0"
httpdate = "=1.0.3"
