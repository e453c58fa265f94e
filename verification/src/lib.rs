//! Sprite/glyph texture atlas management and per-frame batched draw planning
//! for a GPU-backed UI renderer.
//!
//! The atlas packs rasterized content (glyphs, images) into shared GPU
//! textures through a rectangle allocator, deduplicates content by key, and
//! defers texture uploads; the renderer side turns an ordered scene of
//! primitive batches into draw commands with aligned, bounds-checked offsets
//! into per-kind instance buffers.

pub mod atlas;
pub mod dispatcher;
pub mod events;
pub mod geometry;
pub mod http_stubs;
pub mod platform;
pub mod packer;
pub mod renderer;
pub mod scene;

pub use geometry::{Bounds, DevicePixels, Point, Size};
