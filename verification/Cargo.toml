[package]
name = "gradnet"
version = "0.1.0"
edition = "2021"
publish = false

[dependencies]
ndarray = "0.16"
ndarray-rand = "0.15"
ndarray-stats = "0.6"
num-bigfloat = "1"
mnist = "0.6"
plotters = { version = "0.3", default-features = false, features = ["bitmap_backend", "bitmap_encoder", "line_series"] }
