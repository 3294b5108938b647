[package]
name = "capsule_corp"
version = "0.1.0"
edition = "2021"
publish = false

[dependencies]
cssparser = "*"
selectors = "*"
rustc-hash = "*"
smallvec = "*"
bitflags = "*"
thiserror = "*"
unicode-segmentation = "*"
unicode-width = "*"
euclid = "*"
keyboard-types = "*"
precomputed-hash = "*"
