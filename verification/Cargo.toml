[package]
name = "lnk_forensic"
version = "0.1.0"
edition = "2021"
publish = false

[dependencies]
cfb = "*"
forensicnomicon = "*"
