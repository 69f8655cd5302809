[package]
name = "trs80m1_mltl"
version = "0.1.0"
edition = "2021"
publish = false

[dependencies]
getopts = "0.2"
