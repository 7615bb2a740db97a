[package]
name = "git_toolkit"
version = "0.1.0"
edition = "2021"
publish = false

[dependencies]
anyhow = "1"
bstr = { version = "1", default-features = false, features = ["std"] }
git-bitmap = "*"
git-hash = "*"
git-object = "*"
pyo3 = "*"
quick-error = "2"
