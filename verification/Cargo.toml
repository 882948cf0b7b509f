[package]
name = "rubigo"
version = "0.1.0"
edition = "2021"
publish = false

[dependencies]
git2 = { version = "*", default-features = false }
json = "*"
threadpool = "*"
num_cpus = "*"

[dev-dependencies]
tempdir = "*"
