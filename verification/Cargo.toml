[package]
name = "docstore"
version = "0.1.0"
edition = "2021"
publish = false

[dependencies]
google-datastore1 = "5"
hyper = "0.14"
hyper-rustls = "0.24"
