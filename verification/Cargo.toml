[package]
name = "sanatio"
version = "0.1.0"
edition = "2021"
publish = false

[dependencies]
fast_chemail = "=0.9.6"
url = "=2.5.8"
phonenumber = "=0.3.10"
proc-macro2 = "=1.0.107"
