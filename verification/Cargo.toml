[package]
name = "half_edge_mesh"
version = "0.1.0"
edition = "2021"
publish = false

[dependencies]
tobj = "=1.0.0"
