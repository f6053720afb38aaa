//! Colour cycling overlay: a phase that walks around a full turn, the tint
//! colour sampled from it, "over" compositing of that tint on an RGBA raster,
//! and packing of the result into 0xAARRGGBB words for a display surface.
pub mod compose;
pub mod cycle;
pub mod pack;
pub mod raster;
