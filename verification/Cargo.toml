[package]
name = "font_cache"
version = "0.1.0"
edition = "2021"
publish = false

[dependencies]
ab_glyph = "0.2"
dirs-next = "*"
font-kit = "*"
skia-safe = "*"
