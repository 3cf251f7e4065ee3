[package]
name = "v3d_tool"
version = "0.1.0"
edition = "2021"
publish = false

[dependencies]
byteorder = "1"
gltf = { version = "1", default-features = false, features = ["utils", "names"] }
