[package]
name = "img2pdf"
version = "0.1.0"
edition = "2021"
publish = false

[dependencies]
anyhow = "1"
dirs = "*"
fast_image_resize = "*"
fltk = "*"
image = "0.25"
jpeg-encoder = "*"
pdf-writer = "*"
quick-xml = "*"
rayon = "1"
serde = { version = "1", features = ["derive"] }
serde_json = "1"
thiserror = "*"
zune-jpeg = "*"
