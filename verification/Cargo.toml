[package]
name = "git_rg"
version = "0.1.0"
edition = "2021"
publish = false

[dependencies]
dashmap = "*"
gix = "*"
grep = "*"
rayon = "*"
termcolor = "*"
