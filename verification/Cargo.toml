[package]
name = "cobol_sizer"
version = "0.1.0"
edition = "2021"
publish = false

[dependencies]
clap = "2"
num = "0.4"
regex = "1"
