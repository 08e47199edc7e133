[package]
name = "merge_yaml_hash"
version = "0.1.0"
edition = "2021"
publish = false

[dependencies]
hashlink = "=0.12.2"
yaml-rust2 = "=0.13.0"
