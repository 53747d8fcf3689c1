//! Pixelation and resizing of RGBA rasters, with the size policy and the
//! physical-density tagging that go with writing the result as a PNG.

pub mod raster;
pub mod mosaic;
pub mod pixel_laws;
pub mod error;
pub mod size;
pub mod orient;
pub mod codec;
pub mod config;
pub mod uri;
