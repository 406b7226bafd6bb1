[package]
name = "ceceio"
version = "0.1.0"
edition = "2021"
publish = false

[dependencies]
argv = "0.1"
indexmap = "2"
nom = "7"
rustc-hash = "1"
rustc_apfloat = "*"
slicedisplay = "*"
thiserror = "1"
