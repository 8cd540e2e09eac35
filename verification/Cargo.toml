[package]
name = "starlark"
version = "0.1.0"
edition = "2021"
publish = false

[dependencies]
anyhow = "1"
gazebo = "*"
itertools = "0.10"
thiserror = "1"
