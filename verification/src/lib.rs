//! Core logic of a letterboxing frame compositor for a fixed-resolution
//! drawing surface, together with an integer model of its edge
//! anti-aliasing post-process.
//!
//! All geometry is carried in exact rational arithmetic (`rat::Rat`), and
//! image data in 8-bit channels, so that every computation here is exact
//! and deterministic. The windowing backend that actually draws lives
//! outside this crate and only hands plain values in and out.

pub mod animation;
pub mod color;
pub mod fxaa;
pub mod rat;
