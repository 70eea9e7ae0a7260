//! rasterkit - a random-access reader for tiled (Big)TIFF rasters.
//!
//! The crate parses the TIFF/BigTIFF header and IFD chain, decodes compressed
//! tiles, applies the horizontal predictor, and answers pixel lookups through a
//! bounded tile cache. Every function carries a contract stated over the bytes
//! of the file.

pub mod text;
pub mod error;
pub mod types;
pub mod io;
pub mod compression;
pub mod formats;
pub mod cache;
pub mod cache_prefetch;
pub mod cache_prefetch_async;
pub mod projection;
pub mod api;

pub use error::Error;
pub use types::{DataType, Dimensions};
pub use formats::tiff::{tags, GeoFields, IFDEntry, Tiff, TiffReader, BIGTIFF_MAGIC, IFD, TIFF_MAGIC};
pub use projection::{Datum, GridShift};
pub use io::{BufferedReader, ByteOrder, Cursor, SeekFrom, SeekableReader};
