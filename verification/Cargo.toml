[package]
name = "marinara"
version = "0.1.0"
edition = "2021"
publish = false

[dependencies]
structopt = "=0.3.26"
app_dirs = "=1.2.1"
