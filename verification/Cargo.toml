[package]
name = "latinimers"
version = "0.1.0"
edition = "2021"
publish = false

[dependencies]
indexmap = "2"
levenshtein = "1"
jni = "0.20"
