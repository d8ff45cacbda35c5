[package]
name = "tdi_ray_tracer"
version = "0.1.0"
edition = "2021"
publish = false

[dependencies]
rand = "0.8"
kanal = "*"
crossbeam = "0.8"
png = "0.17"
tobj = "*"
