[package]
name = "brainsick"
version = "0.1.0"
edition = "2021"
publish = false

[dependencies]
cstree = "*"
encoding_rs = "*"
logos = "*"
itertools = "*"
target-lexicon = "*"
inkwell = "*"
gtk4 = "*"
windows-sys = "*"
objc2-core-foundation = "*"
