//! TIFF and BigTIFF format support

pub mod tags;
pub mod ifd;
pub mod types;
pub mod reader;
pub mod geotiff;

pub use ifd::{IFDEntry, IFD};
pub use types::Tiff;
pub use reader::TiffReader;
pub use geotiff::GeoFields;

use vstd::prelude::*;

verus! {

/// TIFF magic number (42)
pub const TIFF_MAGIC: u16 = 42;

/// BigTIFF magic number (43)
pub const BIGTIFF_MAGIC: u16 = 43;

} // verus!
