[package]
name = "lovett"
version = "0.1.0"
edition = "2021"
publish = false

[dependencies]
ab_glyph = "0.2"
glyph_brush_layout = "0.2"
glyph_brush_draw_cache = "0.1"
image = { version = "0.23", default-features = false, features = ["png"] }
framebuffer = "*"
rppal = "*"
serde = { version = "1", features = ["derive"] }
uuid = { version = "0.8", features = ["v4"] }
