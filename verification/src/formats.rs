//! Raster file formats.

pub mod tiff;
