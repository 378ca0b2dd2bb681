[package]
name = "dcm_converter"
version = "0.1.0"
edition = "2021"
publish = false

[dependencies]
anyhow = "1"
clap = { version = "4", features = ["derive"] }
dicom = "*"
dicom-pixeldata = { version = "*", features = ["image"] }
image = "*"
lin_alg = "*"
mcubes = "*"
stl_io = "*"
tempfile = "3"
