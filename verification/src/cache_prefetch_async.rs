//! Requests and results of tile prefetching
//!
//! The reader decides which tiles to fetch ahead and hands the decision out
//! as a `PrefetchRequest`. Whoever carries it out loads each tile of the
//! request and hands the bytes back as a `PrefetchResult`, which the reader
//! puts into its cache before its next lookup.

use vstd::prelude::*;
use std::sync::Arc;
use crate::formats::tiff::ifd::{IFDEntry, IFD};

verus! {

/// Request to prefetch tiles
pub struct PrefetchRequest {
    /// The tiles to load, in the order of their prediction.
    pub tile_indices: Vec<usize>,
    /// The directory that the tiles belong to.
    pub ifd: Arc<IFD>,
    /// The entry that holds the offsets of the tiles.
    pub offsets_entry: IFDEntry,
    /// The entry that holds the byte counts of the tiles.
    pub byte_counts_entry: IFDEntry,
}

/// Result from prefetching
pub struct PrefetchResult {
    /// The tile that was loaded.
    pub tile_index: usize,
    /// Its decompressed bytes.
    pub tile_data: Vec<u8>,
}

} // verus!
