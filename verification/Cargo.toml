[package]
name = "scene_append"
version = "0.1.0"
edition = "2021"
publish = false

[dependencies]
vello_common = "=0.1.0"
