//! Parallel tile processing operations
//!
//! A set of tiles is decoded by handing each tile index to a pool of worker
//! threads. Every tile is decoded from the bytes of the file alone, so the
//! result is that of decoding the tiles one after the other.

use vstd::prelude::*;
use std::sync::Arc;
use rayon::iter::{IntoParallelRefIterator, ParallelIterator};
use crate::cache::TileCache;
use crate::error::Error;
use crate::formats::tiff::ifd::{IFDEntry, IFD};
use crate::formats::tiff::reader::tiles::{copy_of, share, Tiles};
use crate::formats::tiff::tags;
use crate::io::byte_order::ByteOrder;
use crate::text::{concat, format_u64};
use crate::types::Dimensions;

verus! {

/// Configuration for parallel tile processing
pub struct ParallelConfig {
    /// The value of the compression tag.
    pub compression_value: u64,
    /// The value of the predictor tag.
    pub predictor: u64,
    /// The width of a tile in samples.
    pub tile_width: u64,
    /// The height of a tile in rows.
    pub tile_height: u64,
    /// The bytes of the file, where they are held in memory.
    pub mmap: Option<Arc<Vec<u8>>>,
    /// The byte order of the file.
    pub byte_order: ByteOrder,
}

impl ParallelConfig {
    /// The tile dimensions of this configuration.
    pub open spec fn tile_dimensions(&self) -> Dimensions {
        Dimensions { width: self.tile_width, height: self.tile_height }
    }

    /// Whether this configuration holds the settings of `ifd`.
    pub open spec fn describes(&self, ifd: IFD) -> bool {
        &&& self.compression_value == ifd.spec_value_or(tags::COMPRESSION, 1)
        &&& self.predictor == ifd.spec_value_or(tags::PREDICTOR, 1)
        &&& ifd.spec_tile_dimensions() == Some(self.tile_dimensions())
    }

    /// The decompressed bytes of tile `index`, whose offset and byte count
    /// are elements `index` of the arrays of the two entries: `None` without
    /// the bytes of the file, where the file ends before what is to be read,
    /// or where the bytes do not decode.
    pub open spec fn tile(&self, offsets: IFDEntry, counts: IFDEntry, index: nat) -> Option<
        Seq<u8>,
    > {
        match self.mmap {
            None => None,
            Some(bytes) => match (
                Tiles::element(bytes@, self.byte_order, offsets, index),
                Tiles::element(bytes@, self.byte_order, counts, index),
            ) {
                (Some(offset), Some(byte_count)) => Tiles::tile_at(
                    bytes@,
                    self.compression_value,
                    self.predictor,
                    Some(self.tile_dimensions()),
                    offset,
                    byte_count,
                ),
                _ => None,
            },
        }
    }

    /// A configuration that holds the settings of a directory gives the
    /// tiles of that directory.
    pub proof fn lemma_tile_of_directory(&self, ifd: IFD, index: nat)
        requires
            self.describes(ifd),
            self.mmap is Some,
            ifd.spec_get_entry(tags::TILE_OFFSETS) is Some,
            ifd.spec_get_entry(tags::TILE_BYTE_COUNTS) is Some,
        ensures
            self.tile(
                ifd.spec_get_entry(tags::TILE_OFFSETS)->Some_0,
                ifd.spec_get_entry(tags::TILE_BYTE_COUNTS)->Some_0,
                index,
            ) == Tiles::tile(self.mmap->Some_0@, self.byte_order, ifd, index),
    {
    }

    /// What the error says where tile `index` cannot be loaded: without the
    /// bytes of the file it is `Unsupported`; an offset or a byte count that
    /// lies beyond the file is `OutOfBounds`; for the rest see
    /// `Tiles::load_refused`.
    pub open spec fn refused(&self, e: Error, offsets: IFDEntry, counts: IFDEntry, index: nat)
        -> bool {
        match self.mmap {
            None => e is Unsupported,
            Some(bytes) => match (
                Tiles::element(bytes@, self.byte_order, offsets, index),
                Tiles::element(bytes@, self.byte_order, counts, index),
            ) {
                (Some(offset), Some(byte_count)) => Tiles::load_refused(
                    e,
                    bytes@,
                    self.compression_value,
                    self.predictor,
                    Some(self.tile_dimensions()),
                    offset,
                    byte_count,
                ),
                _ => e is OutOfBounds,
            },
        }
    }

    /// The configuration for the tiles of `ifd`, which has tile dimensions.
    pub open spec fn of(ifd: IFD, mmap: Option<Arc<Vec<u8>>>, byte_order: ByteOrder) -> Self {
        ParallelConfig {
            compression_value: ifd.spec_value_or(tags::COMPRESSION, 1),
            predictor: ifd.spec_value_or(tags::PREDICTOR, 1),
            tile_width: ifd.spec_tile_dimensions()->Some_0.width,
            tile_height: ifd.spec_tile_dimensions()->Some_0.height,
            mmap,
            byte_order,
        }
    }

    /// Creates configuration from IFD and reader state. A directory without
    /// tile dimensions is `InvalidFormat`.
    pub fn from_ifd(ifd: &IFD, mmap: Option<Arc<Vec<u8>>>, byte_order: ByteOrder) -> (r: Result<
        Self,
        Error,
    >)
        requires
            ifd.wf(),
        ensures
            match r {
                Ok(config) => config.describes(*ifd) && config.mmap == mmap && config.byte_order
                    == byte_order && config == Self::of(*ifd, mmap, byte_order),
                Err(e) => ifd.spec_tile_dimensions() is None && e is InvalidFormat,
            },
    {
        let tile_dims = match ifd.tile_dimensions() {
            Some(d) => d,
            None => {
                return Err(Error::InvalidFormat("Missing tile dimensions".to_string()));
            },
        };
        let compression_value = match ifd.compression() {
            Some(v) => v,
            None => 1,
        };
        let predictor = match ifd.get_tag_value(tags::PREDICTOR) {
            Some(v) => v,
            None => 1,
        };
        Ok(
            Self {
                compression_value,
                predictor,
                tile_width: tile_dims.width,
                tile_height: tile_dims.height,
                mmap,
                byte_order,
            },
        )
    }
}

/// `rayon`'s `par_iter` over the tile indices, `map` with
/// `ParallelReader::load_single_tile`, and `collect` into a vector, which
/// keeps the order of the indices: result `i` is what loading tile
/// `tile_indices[i]` gives.
#[verifier::external_body]
fn load_each(
    tile_indices: &[usize],
    offsets_entry: &IFDEntry,
    byte_counts_entry: &IFDEntry,
    config: &ParallelConfig,
) -> (r: Vec<Result<(usize, Vec<u8>), Error>>)
    ensures
        r@.len() == tile_indices@.len(),
        forall|i: int|
            0 <= i < r@.len() ==> ParallelReader::loads(
                #[trigger] r@[i],
                tile_indices@[i],
                *offsets_entry,
                *byte_counts_entry,
                *config,
            ),
{
    tile_indices.par_iter().map(
        |&tile_idx|
            ParallelReader::load_single_tile(tile_idx, offsets_entry, byte_counts_entry, config),
    ).collect()
}

/// Handles parallel tile reading operations
pub struct ParallelReader;

impl ParallelReader {
    /// What loading one tile gives: the index and the bytes of the tile, or
    /// an error where the tile has no bytes: see `ParallelConfig::refused`.
    pub open spec fn loads(
        result: Result<(usize, Vec<u8>), Error>,
        tile_idx: usize,
        offsets: IFDEntry,
        counts: IFDEntry,
        config: ParallelConfig,
    ) -> bool {
        match result {
            Ok((index, data)) => index == tile_idx && config.tile(offsets, counts, tile_idx as nat)
                == Some(data@),
            Err(e) => config.tile(offsets, counts, tile_idx as nat) is None && config.refused(
                e,
                offsets,
                counts,
                tile_idx as nat,
            ),
        }
    }

    /// Whether tile `tile_indices[i]` is the first in the order of the
    /// indices that cannot be loaded, and `e` says why.
    pub open spec fn first_refused(
        e: Error,
        config: ParallelConfig,
        offsets: IFDEntry,
        counts: IFDEntry,
        tile_indices: Seq<usize>,
        i: int,
    ) -> bool {
        &&& forall|j: int|
            0 <= j < i ==> config.tile(offsets, counts, (#[trigger] tile_indices[j]) as nat)
                is Some
        &&& config.tile(offsets, counts, tile_indices[i] as nat) is None
        &&& config.refused(e, offsets, counts, tile_indices[i] as nat)
    }

    /// Loads a single tile in parallel context
    pub fn load_single_tile(
        tile_idx: usize,
        offsets_entry: &IFDEntry,
        byte_counts_entry: &IFDEntry,
        config: &ParallelConfig,
    ) -> (r: Result<(usize, Vec<u8>), Error>)
        ensures
            Self::loads(r, tile_idx, *offsets_entry, *byte_counts_entry, *config),
    {
        let bytes = match &config.mmap {
            Some(bytes) => bytes,
            None => {
                return Err(
                    Error::Unsupported("Parallel reading requires memory mapping".to_string()),
                );
            },
        };
        let offset = match Tiles::read_element(
            bytes.as_slice(),
            config.byte_order,
            offsets_entry,
            tile_idx,
        ) {
            Ok(v) => v,
            Err(e) => {
                return Err(e);
            },
        };
        let byte_count = match Tiles::read_element(
            bytes.as_slice(),
            config.byte_order,
            byte_counts_entry,
            tile_idx,
        ) {
            Ok(v) => v,
            Err(e) => {
                return Err(e);
            },
        };
        let tile = Some(Dimensions::new(config.tile_width, config.tile_height));
        match Tiles::load_at(
            bytes.as_slice(),
            config.compression_value,
            config.predictor,
            tile,
            offset,
            byte_count,
        ) {
            Ok(data) => Ok((tile_idx, data)),
            Err(e) => Err(e),
        }
    }

    /// Whether each tile of `tile_indices` can be loaded from the bytes of
    /// the file: the directory has both tile arrays and tile dimensions, and
    /// each of the tiles decodes.
    pub open spec fn loadable(
        ifd: IFD,
        tile_indices: Seq<usize>,
        mmap: Option<Arc<Vec<u8>>>,
        order: ByteOrder,
    ) -> bool {
        &&& ifd.spec_get_entry(tags::TILE_OFFSETS) is Some
        &&& ifd.spec_get_entry(tags::TILE_BYTE_COUNTS) is Some
        &&& ifd.spec_tile_dimensions() is Some
        &&& forall|i: int|
            0 <= i < tile_indices.len() ==> mmap is Some && Tiles::tile(
                mmap->Some_0@,
                order,
                ifd,
                (#[trigger] tile_indices[i]) as nat,
            ) is Some
    }

    /// What the error says where the tiles of `tile_indices` cannot all be
    /// loaded: a missing tile array is `MissingTag` with its tag, the offsets
    /// first; missing tile dimensions are `InvalidFormat`; else the first
    /// tile in the order of the indices that cannot be loaded says why.
    pub open spec fn refused(
        e: Error,
        ifd: IFD,
        tile_indices: Seq<usize>,
        mmap: Option<Arc<Vec<u8>>>,
        order: ByteOrder,
    ) -> bool {
        match (
            ifd.spec_get_entry(tags::TILE_OFFSETS),
            ifd.spec_get_entry(tags::TILE_BYTE_COUNTS),
        ) {
            (None, _) => e == Error::MissingTag(tags::TILE_OFFSETS),
            (Some(_), None) => e == Error::MissingTag(tags::TILE_BYTE_COUNTS),
            (Some(offsets), Some(counts)) => if ifd.spec_tile_dimensions() is None {
                e is InvalidFormat
            } else {
                exists|i: int|
                    0 <= i < tile_indices.len() && Self::first_refused(
                        e,
                        ParallelConfig::of(ifd, mmap, order),
                        offsets,
                        counts,
                        tile_indices,
                        i,
                    )
            },
        }
    }

    /// Reads multiple tiles in parallel without caching: tile `i` of the
    /// result holds the bytes of tile `tile_indices[i]`. The first tile in the
    /// order of the indices that cannot be loaded gives the error.
    pub fn read_tiles_parallel_direct(
        ifd: &IFD,
        tile_indices: &[usize],
        mmap: &Option<Arc<Vec<u8>>>,
        byte_order: ByteOrder,
    ) -> (r: Result<Vec<Vec<u8>>, Error>)
        requires
            ifd.wf(),
        ensures
            match r {
                Ok(tiles) => {
                    &&& tiles@.len() == tile_indices@.len()
                    &&& tiles@.len() > 0 ==> mmap is Some
                    &&& forall|i: int|
                        #![trigger tiles@[i]]
                        0 <= i < tiles@.len() ==> Tiles::tile(
                            mmap->Some_0@,
                            byte_order,
                            *ifd,
                            tile_indices@[i] as nat,
                        ) == Some(tiles@[i]@)
                },
                Err(e) => Self::refused(e, *ifd, tile_indices@, *mmap, byte_order),
            },
            r is Ok <==> Self::loadable(*ifd, tile_indices@, *mmap, byte_order),
    {
        let offsets_entry = match ifd.get_entry(tags::TILE_OFFSETS) {
            Some(e) => e,
            None => {
                return Err(Error::MissingTag(tags::TILE_OFFSETS));
            },
        };
        let byte_counts_entry = match ifd.get_entry(tags::TILE_BYTE_COUNTS) {
            Some(e) => e,
            None => {
                return Err(Error::MissingTag(tags::TILE_BYTE_COUNTS));
            },
        };
        let config = match ParallelConfig::from_ifd(ifd, share(mmap), byte_order) {
            Ok(c) => c,
            Err(e) => {
                return Err(e);
            },
        };
        let tile_results = load_each(tile_indices, offsets_entry, byte_counts_entry, &config);
        let mut tiles: Vec<Vec<u8>> = Vec::new();
        let mut loaded = tile_results;
        let mut i: usize = 0;
        let n: usize = loaded.len();
        let ghost results = loaded@;
        while i < n
            invariant
                i <= n,
                n == tile_indices@.len(),
                loaded@.len() == n,
                results.len() == n,
                tiles@.len() == i,
                config.mmap == *mmap,
                config.byte_order == byte_order,
                config.describes(*ifd),
                config == ParallelConfig::of(*ifd, *mmap, byte_order),
                forall|j: int|
                    0 <= j < i ==> config.tile(
                        *offsets_entry,
                        *byte_counts_entry,
                        (#[trigger] tile_indices@[j]) as nat,
                    ) is Some,
                ifd.spec_get_entry(tags::TILE_OFFSETS) == Some(*offsets_entry),
                ifd.spec_get_entry(tags::TILE_BYTE_COUNTS) == Some(*byte_counts_entry),
                forall|j: int|
                    i <= j < n ==> Self::loads(
                        #[trigger] loaded@[j],
                        tile_indices@[j],
                        *offsets_entry,
                        *byte_counts_entry,
                        config,
                    ),
                i > 0 ==> mmap is Some,
                forall|j: int|
                    #![trigger tiles@[j]]
                    0 <= j < i ==> Tiles::tile(
                        mmap->Some_0@,
                        byte_order,
                        *ifd,
                        tile_indices@[j] as nat,
                    ) == Some(tiles@[j]@),
            decreases n - i,
        {
            let mut taken: Result<(usize, Vec<u8>), Error> = Err(Error::InvalidTag(0));
            assert(Self::loads(
                loaded@[i as int],
                tile_indices@[i as int],
                *offsets_entry,
                *byte_counts_entry,
                config,
            ));
            let ghost before = loaded@;
            core::mem::swap(&mut loaded[i], &mut taken);
            assert forall|j: int| i + 1 <= j < n implies Self::loads(
                #[trigger] loaded@[j],
                tile_indices@[j],
                *offsets_entry,
                *byte_counts_entry,
                config,
            ) by {
                assert(loaded@[j] == before[j]);
            }
            proof {
                if mmap is Some {
                    config.lemma_tile_of_directory(*ifd, tile_indices@[i as int] as nat);
                }
            }
            let data = match taken {
                Ok((_, data)) => data,
                Err(e) => {
                    proof {
                        assert(Self::first_refused(
                            e,
                            config,
                            *offsets_entry,
                            *byte_counts_entry,
                            tile_indices@,
                            i as int,
                        ));
                    }
                    return Err(e);
                },
            };
            let ghost before = tiles@;
            tiles.push(data);
            assert(mmap is Some);
            assert forall|j: int| #![trigger tiles@[j]] 0 <= j < i + 1 implies Tiles::tile(
                mmap->Some_0@,
                byte_order,
                *ifd,
                tile_indices@[j] as nat,
            ) == Some(tiles@[j]@) by {
                if j < i {
                    assert(tiles@[j] == before[j]);
                }
            }
            i = i + 1;
        }
        Ok(tiles)
    }

    /// The indices among `tile_indices`, in their order, whose tiles
    /// `entries` does not hold under `ifd_index`.
    pub open spec fn uncached(
        tile_indices: Seq<usize>,
        entries: Map<(usize, usize), Seq<u8>>,
        ifd_index: usize,
    ) -> Seq<usize>
        decreases tile_indices.len(),
    {
        if tile_indices.len() == 0 {
            Seq::empty()
        } else {
            let before = Self::uncached(tile_indices.drop_last(), entries, ifd_index);
            if entries.contains_key((ifd_index, tile_indices.last())) {
                before
            } else {
                before.push(tile_indices.last())
            }
        }
    }

    /// The queue of recently used keys after the tiles of `tile_indices`
    /// were looked up in turn: the key of each tile that `entries` holds
    /// under `ifd_index` has gone to the back of `queue`.
    pub open spec fn looked_up(
        queue: Seq<(usize, usize)>,
        tile_indices: Seq<usize>,
        entries: Map<(usize, usize), Seq<u8>>,
        ifd_index: usize,
    ) -> Seq<(usize, usize)>
        decreases tile_indices.len(),
    {
        if tile_indices.len() == 0 {
            queue
        } else {
            let before = Self::looked_up(queue, tile_indices.drop_last(), entries, ifd_index);
            if entries.contains_key((ifd_index, tile_indices.last())) {
                before.push((ifd_index, tile_indices.last()))
            } else {
                before
            }
        }
    }

    /// Identifies which tiles are not in cache. Each tile that is found
    /// counts as used.
    pub fn find_uncached_indices(tile_indices: &[usize], cache: &mut TileCache, ifd_index: usize)
        -> (r: Vec<usize>)
        ensures
            final(cache).entries() == old(cache).entries(),
            final(cache).limit() == old(cache).limit(),
            old(cache).wf() ==> final(cache).wf(),
            final(cache).recency() == Self::looked_up(
                old(cache).recency(),
                tile_indices@,
                old(cache).entries(),
                ifd_index,
            ),
            r@ == Self::uncached(tile_indices@, old(cache).entries(), ifd_index),
    {
        let mut uncached: Vec<usize> = Vec::new();
        let mut i: usize = 0;
        while i < tile_indices.len()
            invariant
                i <= tile_indices@.len(),
                cache.entries() == old(cache).entries(),
                cache.limit() == old(cache).limit(),
                old(cache).wf() ==> cache.wf(),
                uncached@ == Self::uncached(
                    tile_indices@.subrange(0, i as int),
                    old(cache).entries(),
                    ifd_index,
                ),
                cache.recency() == Self::looked_up(
                    old(cache).recency(),
                    tile_indices@.subrange(0, i as int),
                    old(cache).entries(),
                    ifd_index,
                ),
            decreases tile_indices@.len() - i,
        {
            let idx = tile_indices[i];
            proof {
                let next = tile_indices@.subrange(0, i + 1);
                assert(next.drop_last() =~= tile_indices@.subrange(0, i as int));
                assert(next.last() == idx);
            }
            if cache.get(ifd_index, idx).is_none() {
                uncached.push(idx);
            }
            i = i + 1;
        }
        assert(tile_indices@.subrange(0, i as int) =~= tile_indices@);
        uncached
    }

    /// Whether tile `tile_indices[i]` is the first in the order of the
    /// indices that `entries` does not hold under `ifd_index`.
    pub open spec fn first_absent(
        tile_indices: Seq<usize>,
        entries: Map<(usize, usize), Seq<u8>>,
        ifd_index: usize,
        i: int,
    ) -> bool {
        &&& 0 <= i < tile_indices.len()
        &&& forall|j: int|
            0 <= j < i ==> entries.contains_key((ifd_index, #[trigger] tile_indices[j]))
        &&& !entries.contains_key((ifd_index, tile_indices[i]))
    }

    /// Collects requested tiles from cache, each of which counts as used.
    /// The first tile that the cache does not hold is `InvalidFormat`.
    pub fn collect_tiles_from_cache(tile_indices: &[usize], cache: &mut TileCache, ifd_index: usize)
        -> (r: Result<Vec<Vec<u8>>, Error>)
        ensures
            final(cache).entries() == old(cache).entries(),
            final(cache).limit() == old(cache).limit(),
            old(cache).wf() ==> final(cache).wf(),
            match r {
                Ok(tiles) => {
                    &&& tiles@.len() == tile_indices@.len()
                    &&& forall|i: int|
                        #![trigger tile_indices@[i]]
                        0 <= i < tiles@.len() ==> old(cache).entries().contains_key(
                            (ifd_index, tile_indices@[i]),
                        )
                    &&& forall|i: int|
                        #![trigger tiles@[i]]
                        0 <= i < tiles@.len() ==> tiles@[i]@ == old(cache).entries()[(
                            ifd_index,
                            tile_indices@[i],
                        )]
                    &&& final(cache).recency() == Self::looked_up(
                        old(cache).recency(),
                        tile_indices@,
                        old(cache).entries(),
                        ifd_index,
                    )
                },
                Err(e) => e is InvalidFormat && exists|i: int|
                    #![trigger tile_indices@[i]]
                    Self::first_absent(tile_indices@, old(cache).entries(), ifd_index, i)
                        && final(cache).recency() == Self::looked_up(
                        old(cache).recency(),
                        tile_indices@.subrange(0, i),
                        old(cache).entries(),
                        ifd_index,
                    ),
            },
    {
        let mut tiles: Vec<Vec<u8>> = Vec::new();
        let mut i: usize = 0;
        while i < tile_indices.len()
            invariant
                i <= tile_indices@.len(),
                cache.entries() == old(cache).entries(),
                cache.limit() == old(cache).limit(),
                old(cache).wf() ==> cache.wf(),
                tiles@.len() == i,
                forall|j: int|
                    #![trigger tile_indices@[j]]
                    0 <= j < i ==> old(cache).entries().contains_key((ifd_index, tile_indices@[j])),
                forall|j: int|
                    #![trigger tiles@[j]]
                    0 <= j < i ==> tiles@[j]@ == old(cache).entries()[(
                        ifd_index,
                        tile_indices@[j],
                    )],
                cache.recency() == Self::looked_up(
                    old(cache).recency(),
                    tile_indices@.subrange(0, i as int),
                    old(cache).entries(),
                    ifd_index,
                ),
            decreases tile_indices@.len() - i,
        {
            let idx = tile_indices[i];
            proof {
                let next = tile_indices@.subrange(0, i + 1);
                assert(next.drop_last() =~= tile_indices@.subrange(0, i as int));
                assert(next.last() == idx);
            }
            let data = match cache.get(ifd_index, idx) {
                Some(data) => data,
                None => {
                    assert(Self::first_absent(
                        tile_indices@,
                        old(cache).entries(),
                        ifd_index,
                        i as int,
                    ));
                    return Err(
                        Error::InvalidFormat(
                            concat("Failed to read tile ", format_u64(idx as u64).as_str()),
                        ),
                    );
                },
            };
            let ghost before = tiles@;
            tiles.push(copy_of(&data));
            assert forall|j: int| #![trigger tile_indices@[j]] 0 <= j < i + 1 implies old(
                cache,
            ).entries().contains_key((ifd_index, tile_indices@[j])) by {
            }
            assert forall|j: int| #![trigger tiles@[j]] 0 <= j < i + 1 implies tiles@[j]@ == old(
                cache,
            ).entries()[(ifd_index, tile_indices@[j])] by {
                if j < i {
                    assert(tiles@[j] == before[j]);
                }
            }
            i = i + 1;
        }
        assert(tile_indices@.subrange(0, i as int) =~= tile_indices@);
        Ok(tiles)
    }

    /// Whether every tile that `entries` holds under `ifd_index` is the tile
    /// of its index in `ifd`, in the file of the bytes `source`.
    pub open spec fn holds_tiles_of(
        entries: Map<(usize, usize), Seq<u8>>,
        ifd_index: usize,
        source: Seq<u8>,
        order: ByteOrder,
        ifd: IFD,
    ) -> bool {
        forall|t: usize| #[trigger]
            entries.contains_key((ifd_index, t)) ==> Tiles::tile(source, order, ifd, t as nat)
                == Some(entries[(ifd_index, t)])
    }

    /// The tiles of a cache and its queue after the tiles `tile_indices` of
    /// the file were put under `ifd_index` in turn, each as
    /// `TileCache::after_put` says.
    pub open spec fn filled(
        entries: Map<(usize, usize), Seq<u8>>,
        queue: Seq<(usize, usize)>,
        limit: nat,
        ifd_index: usize,
        tile_indices: Seq<usize>,
        source: Seq<u8>,
        order: ByteOrder,
        ifd: IFD,
    ) -> (Map<(usize, usize), Seq<u8>>, Seq<(usize, usize)>)
        decreases tile_indices.len(),
    {
        if tile_indices.len() == 0 {
            (entries, queue)
        } else {
            let before = Self::filled(
                entries,
                queue,
                limit,
                ifd_index,
                tile_indices.drop_last(),
                source,
                order,
                ifd,
            );
            TileCache::after_put(
                before.0,
                before.1,
                limit,
                (ifd_index, tile_indices.last()),
                Tiles::tile(source, order, ifd, tile_indices.last() as nat)->Some_0,
            )
        }
    }

    /// Loads uncached tiles in parallel and puts them in cache, in the order
    /// of the indices. Where a tile cannot be loaded, the first such tile
    /// gives the error and the cache is left as it was.
    fn load_uncached_tiles_parallel(
        ifd: &IFD,
        uncached_indices: &[usize],
        cache: &mut TileCache,
        ifd_index: usize,
        mmap: &Option<Arc<Vec<u8>>>,
        byte_order: ByteOrder,
    ) -> (r: Result<(), Error>)
        requires
            old(cache).wf(),
            ifd.wf(),
        ensures
            final(cache).wf(),
            final(cache).limit() == old(cache).limit(),
            mmap matches Some(bytes) ==> (Self::holds_tiles_of(
                old(cache).entries(),
                ifd_index,
                bytes@,
                byte_order,
                *ifd,
            ) ==> Self::holds_tiles_of(final(cache).entries(), ifd_index, bytes@, byte_order, *ifd)),
            mmap is None ==> final(cache).entries() == old(cache).entries(),
            r is Ok <==> Self::loadable(*ifd, uncached_indices@, *mmap, byte_order),
            match r {
                Ok(_) => (final(cache).entries(), final(cache).recency()) == Self::filled(
                    old(cache).entries(),
                    old(cache).recency(),
                    old(cache).limit(),
                    ifd_index,
                    uncached_indices@,
                    mmap->Some_0@,
                    byte_order,
                    *ifd,
                ),
                Err(e) => {
                    &&& Self::refused(e, *ifd, uncached_indices@, *mmap, byte_order)
                    &&& final(cache).entries() == old(cache).entries()
                    &&& final(cache).recency() == old(cache).recency()
                },
            },
    {
        let tiles = match Self::read_tiles_parallel_direct(ifd, uncached_indices, mmap, byte_order) {
            Ok(t) => t,
            Err(e) => {
                return Err(e);
            },
        };
        let mut i: usize = 0;
        while i < tiles.len()
            invariant
                i <= tiles@.len(),
                tiles@.len() == uncached_indices@.len(),
                cache.wf(),
                cache.limit() == old(cache).limit(),
                tiles@.len() > 0 ==> mmap is Some,
                forall|k: int|
                    #![trigger tiles@[k]]
                    0 <= k < tiles@.len() ==> Tiles::tile(
                        mmap->Some_0@,
                        byte_order,
                        *ifd,
                        uncached_indices@[k] as nat,
                    ) == Some(tiles@[k]@),
                mmap matches Some(bytes) ==> (Self::holds_tiles_of(
                    old(cache).entries(),
                    ifd_index,
                    bytes@,
                    byte_order,
                    *ifd,
                ) ==> Self::holds_tiles_of(cache.entries(), ifd_index, bytes@, byte_order, *ifd)),
                mmap is None ==> cache.entries() == old(cache).entries(),
                (cache.entries(), cache.recency()) == Self::filled(
                    old(cache).entries(),
                    old(cache).recency(),
                    old(cache).limit(),
                    ifd_index,
                    uncached_indices@.subrange(0, i as int),
                    mmap->Some_0@,
                    byte_order,
                    *ifd,
                ),
            decreases tiles@.len() - i,
        {
            let ghost before = cache.entries();
            let ghost queue = cache.recency();
            proof {
                let next = uncached_indices@.subrange(0, i + 1);
                assert(next.drop_last() =~= uncached_indices@.subrange(0, i as int));
                assert(next.last() == uncached_indices@[i as int]);
            }
            let data = vstd::slice::slice_to_vec(tiles[i].as_slice());
            cache.put(ifd_index, uncached_indices[i], data);
            proof {
                TileCache::lemma_evicted_keeps(before, queue, cache.limit());
                assert(Tiles::tile(
                    mmap->Some_0@,
                    byte_order,
                    *ifd,
                    uncached_indices@[i as int] as nat,
                ) == Some(tiles@[i as int]@));
            }
            i = i + 1;
        }
        assert(uncached_indices@.subrange(0, i as int) =~= uncached_indices@);
        Ok(())
    }

    /// What reading the tiles `tile_indices` through a cache gives, and
    /// what the cache holds afterwards. Each tile is looked up first; the
    /// tiles that the cache lacks are loaded and put in turn; then each tile
    /// is taken from the cache. Where a tile cannot be loaded, the error is
    /// that of the first such tile and nothing is put. Where the cache has
    /// dropped a tile again by the time it is taken, the first such tile is
    /// `InvalidFormat`.
    pub open spec fn outcome(
        r: Result<Vec<Vec<u8>>, Error>,
        entries: Map<(usize, usize), Seq<u8>>,
        recency: Seq<(usize, usize)>,
        limit: nat,
        entries_after: Map<(usize, usize), Seq<u8>>,
        recency_after: Seq<(usize, usize)>,
        ifd: IFD,
        tile_indices: Seq<usize>,
        ifd_index: usize,
        mmap: Option<Arc<Vec<u8>>>,
        order: ByteOrder,
    ) -> bool {
        let missing = Self::uncached(tile_indices, entries, ifd_index);
        let queue = Self::looked_up(recency, tile_indices, entries, ifd_index);
        let after = Self::filled(
            entries,
            queue,
            limit,
            ifd_index,
            missing,
            mmap->Some_0@,
            order,
            ifd,
        );
        if missing.len() > 0 && !Self::loadable(ifd, missing, mmap, order) {
            &&& r matches Err(e) && Self::refused(e, ifd, missing, mmap, order)
            &&& entries_after == entries
            &&& recency_after == queue
        } else {
            &&& entries_after == after.0
            &&& match r {
                Ok(tiles) => {
                    &&& tiles@.len() == tile_indices.len()
                    &&& forall|i: int|
                        0 <= i < tile_indices.len() ==> after.0.contains_key(
                            (ifd_index, #[trigger] tile_indices[i]),
                        )
                    &&& forall|i: int|
                        #![trigger tiles@[i]]
                        0 <= i < tile_indices.len() ==> tiles@[i]@ == after.0[(
                            ifd_index,
                            tile_indices[i],
                        )]
                    &&& recency_after == Self::looked_up(after.1, tile_indices, after.0, ifd_index)
                },
                Err(e) => e is InvalidFormat && exists|i: int|
                    #![trigger tile_indices[i]]
                    Self::first_absent(tile_indices, after.0, ifd_index, i) && recency_after
                        == Self::looked_up(after.1, tile_indices.subrange(0, i), after.0, ifd_index),
            }
        }
    }

    /// Reads multiple tiles in parallel: each tile is looked up in the cache,
    /// the tiles that the cache lacks are loaded in parallel and put into the
    /// cache, then all tiles are taken from the cache. Where a tile cannot be
    /// loaded, the error is that of the first such tile and the cache keeps
    /// its tiles. A tile that the cache has dropped again by the time it is
    /// taken is `InvalidFormat`.
    pub fn read_tiles_parallel(
        ifd: &IFD,
        tile_indices: &[usize],
        cache: &mut TileCache,
        current_ifd_index: usize,
        mmap: &Option<Arc<Vec<u8>>>,
        byte_order: ByteOrder,
    ) -> (r: Result<Vec<Vec<u8>>, Error>)
        requires
            old(cache).wf(),
            ifd.wf(),
        ensures
            final(cache).wf(),
            final(cache).limit() == old(cache).limit(),
            mmap matches Some(bytes) ==> (Self::holds_tiles_of(
                old(cache).entries(),
                current_ifd_index,
                bytes@,
                byte_order,
                *ifd,
            ) ==> Self::holds_tiles_of(
                final(cache).entries(),
                current_ifd_index,
                bytes@,
                byte_order,
                *ifd,
            )),
            mmap is None ==> final(cache).entries() == old(cache).entries(),
            r matches Ok(tiles) ==> tiles@.len() == tile_indices@.len(),
            r matches Ok(tiles) ==> forall|i: int|
                #![trigger tile_indices@[i]]
                0 <= i < tiles@.len() ==> final(cache).entries().contains_key(
                    (current_ifd_index, tile_indices@[i]),
                ),
            r matches Ok(tiles) ==> forall|i: int|
                #![trigger tiles@[i]]
                0 <= i < tiles@.len() ==> tiles@[i]@ == final(cache).entries()[(
                    current_ifd_index,
                    tile_indices@[i],
                )],
            Self::outcome(
                r,
                old(cache).entries(),
                old(cache).recency(),
                old(cache).limit(),
                final(cache).entries(),
                final(cache).recency(),
                *ifd,
                tile_indices@,
                current_ifd_index,
                *mmap,
                byte_order,
            ),
    {
        let uncached_indices = Self::find_uncached_indices(tile_indices, cache, current_ifd_index);
        if uncached_indices.len() > 0 {
            match Self::load_uncached_tiles_parallel(
                ifd,
                uncached_indices.as_slice(),
                cache,
                current_ifd_index,
                mmap,
                byte_order,
            ) {
                Ok(()) => {},
                Err(e) => {
                    return Err(e);
                },
            }
        }
        Self::collect_tiles_from_cache(tile_indices, cache, current_ifd_index)
    }
}

} // verus!
