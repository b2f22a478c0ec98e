//! Rendering core of a small GUI toolkit for framebuffer displays.
//!
//! A scene is an ordered list of layers ([`canvas::Canvas`]), each wrapping a
//! drawable ([`shapes::Rect`], [`shapes::Image`], [`text::Text`]). A render
//! pass composes the active layers onto an RGB565 pixel surface ([`fb::FB`])
//! with per-pixel alpha blending ([`color::Color`]). What of a drawable is
//! visible is decided in one place ([`clip`]). Text is rasterized once into
//! a bitmap, from glyphs that a packer caches in a coverage atlas
//! ([`atlas`], [`glyphs`]); decoded images are those of the `image` crate
//! ([`picture`]).
//!
//! Around the core stand the rules of the toolkit that is built on it: the
//! visual states of widgets and the layer groups that show them
//! ([`gui_tk`]), the navigation of a view's widgets ([`views`]), the
//! debouncing of the button pad ([`hid`]), and the requests that change the
//! application's state ([`store`], [`state`]).
//!
//! The library opens no device and reads no file. It composes frames and
//! hands out their bytes; it takes readings of pins and measured text
//! extents as plain values.

pub mod atlas;
pub mod canvas;
pub mod clip;
pub mod color;
pub mod fb;
pub mod glyphs;
pub mod gui_tk;
pub mod hid;
pub mod picture;
pub mod shapes;
pub mod state;
pub mod store;
pub mod text;
pub mod views;
