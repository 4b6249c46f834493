//! A small 2D rendering core: rectangular blits between in-memory bitmaps
//! with boundary clipping, and a monospace bitmap-font renderer on top.

pub mod data_types;
pub mod graphics;
