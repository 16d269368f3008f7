[package]
name = "s3_vfs"
version = "0.1.0"
edition = "2021"
publish = false

[dependencies]
opendal = { version = "=0.54.1", default-features = false, features = ["services-s3"] }
async-trait = "=0.1.92"
log = "=0.4.34"
