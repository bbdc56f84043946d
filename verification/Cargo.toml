[package]
name = "aorta"
version = "0.1.0"
edition = "2021"
publish = false

[dependencies]
dirs = "*"
ctrlc = "*"
rustyline = "*"
inksac = "*"
libc = "*"
