//! Tile loading and caching operations
//!
//! Tile `t` of a directory is found through two arrays in the file: element
//! `t` of the `TileOffsets` array is the offset of its compressed bytes,
//! element `t` of the `TileByteCounts` array is their number. A byte count of
//! zero stands for a tile of zeros. The compressed bytes are decompressed, and
//! where the `Predictor` tag is 2 the horizontal predictor is undone.

use vstd::prelude::*;
use vstd::slice::slice_subrange;
use std::sync::Arc;
use crate::cache::TileCache;
use crate::cache_prefetch::{AccessPattern, PrefetchConfig};
use crate::cache_prefetch_async::{PrefetchRequest, PrefetchResult};
use crate::compression::Compression;
use crate::error::Error;
use crate::formats::tiff::reader::parallel::ParallelReader;
use crate::io::buffer::BufferedReader;
use crate::io::byte_order::ByteOrderHandler;
use crate::io::traits::{SeekFrom, SeekableReader};
use crate::formats::tiff::ifd::{IFDEntry, IFD};
use crate::formats::tiff::reader::predictor::apply_horizontal_predictor;
use crate::formats::tiff::tags;
use crate::io::byte_order::ByteOrder;
use crate::io::traits::vec_of_zeros;
use crate::types::Dimensions;

verus! {

/// `Arc::clone`: another pointer to the same bytes.
#[verifier::external_body]
pub(crate) fn share_bytes(bytes: &Arc<Vec<u8>>) -> (r: Arc<Vec<u8>>)
    ensures
        r == *bytes,
{
    Arc::clone(bytes)
}

/// Another handle to the bytes of the file, where they are held in memory.
pub fn share(mmap: &Option<Arc<Vec<u8>>>) -> (r: Option<Arc<Vec<u8>>>)
    ensures
        r == *mmap,
{
    match mmap {
        Some(bytes) => Some(share_bytes(bytes)),
        None => None,
    }
}

/// A copy of shared bytes.
pub fn copy_of(data: &Arc<Vec<u8>>) -> (v: Vec<u8>)
    ensures
        v@ == data@,
{
    vstd::slice::slice_to_vec(data.as_slice())
}

/// The layout of the tiles of a directory in the bytes of a file.
pub struct Tiles;

impl Tiles {
    /// How many bytes one element of an offsets or byte counts array is
    /// read from: eight for the eight-byte field types, four for all others.
    pub open spec fn element_width(entry: IFDEntry) -> nat {
        if IFDEntry::type_size(entry.field_type) == 8 {
            8
        } else {
            4
        }
    }

    /// The file offset of element `index` of the array of `entry`.
    pub open spec fn element_offset(entry: IFDEntry, index: nat) -> nat {
        entry.value_offset as nat + index * IFDEntry::type_size(entry.field_type)
    }

    /// Element `index` of the array of `entry`: `None` where the file ends
    /// before it, or its offset does not fit 64 bits.
    pub open spec fn element(source: Seq<u8>, order: ByteOrder, entry: IFDEntry, index: nat)
        -> Option<u64> {
        let at = Self::element_offset(entry, index);
        let width = Self::element_width(entry);
        if at <= u64::MAX && at + width <= source.len() {
            Some(order.value(source.subrange(at as int, (at + width) as int)) as u64)
        } else {
            None
        }
    }

    /// The tile of zeros that stands for a byte count of zero: `None`
    /// without tile dimensions, or where its size does not fit `usize`.
    pub open spec fn empty_tile(tile: Option<Dimensions>) -> Option<Seq<u8>> {
        match tile {
            Some(d) => if d.width * d.height <= usize::MAX {
                Some(Seq::new((d.width * d.height) as nat, |i: int| 0u8))
            } else {
                None
            },
            None => None,
        }
    }

    /// What compressed bytes decode to under the settings of a directory:
    /// they are decompressed as the compression value says (a missing tag
    /// counts as 1), and where the predictor value is 2 the predictor is undone
    /// in rows of the tile width. `None` where the compression value names no
    /// compression, the bytes do not decompress, or the predictor needs tile
    /// dimensions that are missing or do not fit `usize`.
    pub open spec fn decoded(
        compression_value: u64,
        predictor: u64,
        tile: Option<Dimensions>,
        compressed: Seq<u8>,
    ) -> Option<Seq<u8>> {
        match Compression::spec_from_tag(compression_value) {
            None => None,
            Some(compression) => match compression.decoded(compressed) {
                None => None,
                Some(plain) => if predictor == 2 {
                    match tile {
                        Some(d) => if d.width <= usize::MAX && d.height <= usize::MAX {
                            Some(
                                crate::formats::tiff::reader::predictor::restored(
                                    plain,
                                    d.width as nat,
                                    d.height as nat,
                                ),
                            )
                        } else {
                            None
                        },
                        None => None,
                    }
                } else {
                    Some(plain)
                },
            },
        }
    }

    /// What the error says where compressed bytes do not decode: a
    /// compression value that names no compression is `Unsupported`; bytes that
    /// do not decompress are an I/O error for Deflate and `InvalidFormat` for
    /// the other compressions; a predictor without tile dimensions is
    /// `InvalidFormat`, one with tile dimensions beyond `usize` `OutOfBounds`.
    pub open spec fn decode_refused(
        e: Error,
        compression_value: u64,
        predictor: u64,
        tile: Option<Dimensions>,
        compressed: Seq<u8>,
    ) -> bool {
        match Compression::spec_from_tag(compression_value) {
            None => e is Unsupported,
            Some(compression) => if compression.decoded(compressed) is None {
                if compression == Compression::Deflate {
                    e is Io
                } else {
                    e is InvalidFormat
                }
            } else if predictor != 2 {
                false
            } else {
                match tile {
                    None => e is InvalidFormat,
                    Some(d) => !(d.width <= usize::MAX && d.height <= usize::MAX)
                        && e is OutOfBounds,
                }
            },
        }
    }

    /// What the error says where a tile cannot be loaded from the bytes of
    /// the file: a tile of zeros without tile dimensions is `InvalidFormat`,
    /// one too large for memory `OutOfBounds`; compressed bytes beyond the
    /// file are `OutOfBounds`; for bytes that do not decode see
    /// `decode_refused`.
    pub open spec fn load_refused(
        e: Error,
        source: Seq<u8>,
        compression_value: u64,
        predictor: u64,
        tile: Option<Dimensions>,
        offset: u64,
        byte_count: u64,
    ) -> bool {
        if byte_count == 0 {
            match tile {
                None => e is InvalidFormat,
                Some(d) => d.width * d.height > usize::MAX && e is OutOfBounds,
            }
        } else if !(offset + byte_count <= source.len() && byte_count <= usize::MAX) {
            e is OutOfBounds
        } else {
            Self::decode_refused(
                e,
                compression_value,
                predictor,
                tile,
                source.subrange(offset as int, (offset + byte_count) as int),
            )
        }
    }

    /// The bytes of a tile whose compressed bytes lie at `offset` and count
    /// `byte_count`: `None` where they do not lie within the file, are more
    /// than memory can hold, or do not decode.
    pub open spec fn tile_at(
        source: Seq<u8>,
        compression_value: u64,
        predictor: u64,
        tile: Option<Dimensions>,
        offset: u64,
        byte_count: u64,
    ) -> Option<Seq<u8>> {
        if byte_count == 0 {
            Self::empty_tile(tile)
        } else if offset + byte_count <= source.len() && byte_count <= usize::MAX {
            Self::decoded(
                compression_value,
                predictor,
                tile,
                source.subrange(offset as int, (offset + byte_count) as int),
            )
        } else {
            None
        }
    }

    /// The decompressed bytes of tile `index` of a directory in a file:
    /// `None` where the directory lacks the offsets or byte counts tag, the
    /// file ends before what is to be read, or the bytes do not decode.
    pub open spec fn tile(source: Seq<u8>, order: ByteOrder, ifd: IFD, index: nat) -> Option<
        Seq<u8>,
    > {
        match (ifd.spec_get_entry(tags::TILE_OFFSETS), ifd.spec_get_entry(tags::TILE_BYTE_COUNTS)) {
            (Some(offsets), Some(counts)) => match (
                Self::element(source, order, offsets, index),
                Self::element(source, order, counts, index),
            ) {
                (Some(offset), Some(byte_count)) => Self::tile_at(
                    source,
                    ifd.spec_value_or(tags::COMPRESSION, 1),
                    ifd.spec_value_or(tags::PREDICTOR, 1),
                    ifd.spec_tile_dimensions(),
                    offset,
                    byte_count,
                ),
                _ => None,
            },
            _ => None,
        }
    }

    /// Element `index` of the array of `entry`, read from the bytes of the
    /// file. What lies beyond the file, or at an offset beyond 64 bits, is
    /// `OutOfBounds`.
    pub fn read_element(bytes: &[u8], order: ByteOrder, entry: &IFDEntry, index: usize) -> (r:
        Result<u64, Error>)
        ensures
            match r {
                Ok(v) => Self::element(bytes@, order, *entry, index as nat) == Some(v),
                Err(e) => Self::element(bytes@, order, *entry, index as nat) is None
                    && e is OutOfBounds,
            },
    {
        let size: usize = entry.field_type_size();
        let width: usize = if size == 8 {
            8
        } else {
            4
        };
        let at: u128 = entry.value_offset as u128 + index as u128 * size as u128;
        assert(bytes@.len() == bytes.len());
        if at > u64::MAX as u128 || at > usize::MAX as u128 {
            return Err(Error::OutOfBounds("Array element outside of the file".to_string()));
        }
        let start: usize = at as usize;
        if start > bytes.len() || width > bytes.len() - start {
            return Err(Error::OutOfBounds("Array element outside of the file".to_string()));
        }
        let field = slice_subrange(bytes, start, start + width);
        Ok(order.decode(field))
    }

    /// A tile of zeros of the size of the tile dimensions.
    pub fn create_empty_tile(tile: Option<Dimensions>) -> (r: Result<Vec<u8>, Error>)
        ensures
            match r {
                Ok(data) => Self::empty_tile(tile) == Some(data@),
                Err(e) => Self::empty_tile(tile) is None && if tile is None {
                    e is InvalidFormat
                } else {
                    e is OutOfBounds
                },
            },
    {
        let d = match tile {
            Some(d) => d,
            None => {
                return Err(Error::InvalidFormat("Missing tile dimensions".to_string()));
            },
        };
        assert(d.width as u128 * d.height as u128 <= 0xFFFF_FFFF_FFFF_FFFF * 0xFFFF_FFFF_FFFF_FFFF)
            by (nonlinear_arith)
            requires
                d.width <= 0xFFFF_FFFF_FFFF_FFFF,
                d.height <= 0xFFFF_FFFF_FFFF_FFFF,
        ;
        let size: u128 = d.width as u128 * d.height as u128;
        if size > usize::MAX as u128 {
            return Err(Error::OutOfBounds("Tile size does not fit".to_string()));
        }
        let data = vec_of_zeros(size as usize);
        assert(data@ =~= Seq::new((d.width * d.height) as nat, |i: int| 0u8));
        Ok(data)
    }

    /// Decompresses tile data and applies predictor if needed. A compression
    /// value that names none is `Unsupported`; bytes that do not decompress
    /// give the error of their decoder; a predictor without tile dimensions is
    /// `InvalidFormat`, one with dimensions beyond `usize` `OutOfBounds`.
    pub fn decode(
        compression_value: u64,
        predictor: u64,
        tile: Option<Dimensions>,
        compressed: &[u8],
    ) -> (r: Result<Vec<u8>, Error>)
        ensures
            match r {
                Ok(data) => Self::decoded(compression_value, predictor, tile, compressed@) == Some(
                    data@,
                ),
                Err(e) => Self::decoded(compression_value, predictor, tile, compressed@) is None
                    && Self::decode_refused(e, compression_value, predictor, tile, compressed@),
            },
    {
        let compression = match Compression::from_tag(compression_value) {
            Ok(c) => c,
            Err(e) => {
                return Err(e);
            },
        };
        let mut decompressed = match compression.decompress(compressed) {
            Ok(d) => d,
            Err(e) => {
                return Err(e);
            },
        };
        if predictor == 2 {
            let d = match tile {
                Some(d) => d,
                None => {
                    return Err(Error::InvalidFormat("Missing tile dimensions".to_string()));
                },
            };
            if d.width > usize::MAX as u64 || d.height > usize::MAX as u64 {
                return Err(Error::OutOfBounds("Tile dimensions do not fit".to_string()));
            }
            apply_horizontal_predictor(
                decompressed.as_mut_slice(),
                d.width as usize,
                d.height as usize,
            );
        }
        Ok(decompressed)
    }

    /// The bytes of the tile whose compressed bytes lie at `offset` and
    /// count `byte_count`, from the bytes of the file. Compressed bytes beyond
    /// the file are `OutOfBounds`.
    pub fn load_at(
        bytes: &[u8],
        compression_value: u64,
        predictor: u64,
        tile: Option<Dimensions>,
        offset: u64,
        byte_count: u64,
    ) -> (r: Result<Vec<u8>, Error>)
        ensures
            match r {
                Ok(data) => Self::tile_at(
                    bytes@,
                    compression_value,
                    predictor,
                    tile,
                    offset,
                    byte_count,
                ) == Some(data@),
                Err(e) => Self::tile_at(
                    bytes@,
                    compression_value,
                    predictor,
                    tile,
                    offset,
                    byte_count,
                ) is None && Self::load_refused(
                    e,
                    bytes@,
                    compression_value,
                    predictor,
                    tile,
                    offset,
                    byte_count,
                ),
            },
    {
        if byte_count == 0 {
            return Self::create_empty_tile(tile);
        }
        let len: usize = bytes.len();
        if offset > len as u64 || byte_count > len as u64 - offset {
            return Err(Error::OutOfBounds("Tile data range exceeds file size".to_string()));
        }
        let start: usize = offset as usize;
        let end: usize = start + byte_count as usize;
        Self::decode(compression_value, predictor, tile, slice_subrange(bytes, start, end))
    }
}

/// Handles tile loading with caching and memory mapping
pub struct TileReader<R: SeekableReader> {
    /// The buffered reader of the file.
    pub(crate) reader: BufferedReader<R>,
    /// The byte order of the file.
    pub(crate) byte_order: ByteOrder,
    /// The bytes of the file, where they are held in memory.
    pub(crate) mmap: Option<Arc<Vec<u8>>>,
    /// The cache of decompressed tiles.
    pub(crate) cache: TileCache,
    /// The directory index under which tiles are cached.
    pub(crate) current_ifd_index: usize,
    /// The tracker of tile accesses, once prefetching is set up.
    pub(crate) access_pattern: Option<AccessPattern>,
    /// The prefetch settings.
    pub(crate) prefetch_config: PrefetchConfig,
    /// The tiles that the last read decided to fetch ahead, until taken.
    pub(crate) pending_prefetch: Option<PrefetchRequest>,
}

impl<R: SeekableReader> TileReader<R> {
    /// The buffered reader of the file.
    pub open(crate) spec fn spec_reader(&self) -> BufferedReader<R> {
        self.reader
    }

    /// The byte order of the file.
    pub open(crate) spec fn spec_byte_order(&self) -> ByteOrder {
        self.byte_order
    }

    /// The bytes of the file, where they are held in memory.
    pub open(crate) spec fn spec_mmap(&self) -> Option<Arc<Vec<u8>>> {
        self.mmap
    }

    /// The cache of decompressed tiles.
    pub open(crate) spec fn spec_cache(&self) -> TileCache {
        self.cache
    }

    /// The directory index under which tiles are cached.
    pub open(crate) spec fn spec_current_ifd_index(&self) -> usize {
        self.current_ifd_index
    }

    /// The tracker of tile accesses, once prefetching is set up.
    pub open(crate) spec fn spec_access_pattern(&self) -> Option<AccessPattern> {
        self.access_pattern
    }

    /// The prefetch settings.
    pub open(crate) spec fn spec_prefetch_config(&self) -> PrefetchConfig {
        self.prefetch_config
    }

    /// The tiles that the last read decided to fetch ahead, until taken.
    pub open(crate) spec fn spec_pending_prefetch(&self) -> Option<PrefetchRequest> {
        self.pending_prefetch
    }

    /// The cache is within its bound, and the bytes held in memory are
    /// those of the file.
    pub open(crate) spec fn wf(&self) -> bool {
        &&& self.cache.wf()
        &&& self.mmap matches Some(bytes) ==> bytes@ == self.reader.source()
    }

    /// Every tile that the cache holds under the current directory index is
    /// the tile of that index in `ifd`.
    pub open(crate) spec fn coherent(&self, ifd: IFD) -> bool {
        forall|t: usize| #[trigger]
            self.cache.entries().contains_key((self.current_ifd_index, t)) ==> Tiles::tile(
                self.reader.source(),
                self.byte_order,
                ifd,
                t as nat,
            ) == Some(self.cache.entries()[(self.current_ifd_index, t)])
    }

    /// The bytes that a read of tile `index` of `ifd` gives as the reader
    /// stands: those that the cache holds under the current directory index,
    /// else those of the file.
    pub open(crate) spec fn served(&self, ifd: IFD, index: usize) -> Option<Seq<u8>> {
        if self.cache.entries().contains_key((self.current_ifd_index, index)) {
            Some(self.cache.entries()[(self.current_ifd_index, index)])
        } else {
            Tiles::tile(self.reader.source(), self.byte_order, ifd, index as nat)
        }
    }

    /// What a reader keeps while it reads: its file, byte order, directory
    /// index and settings.
    pub open(crate) spec fn same_file(&self, other: &Self) -> bool {
        &&& self.reader.source() == other.reader.source()
        &&& self.reader.reliable() == other.reader.reliable()
        &&& self.byte_order == other.byte_order
        &&& self.mmap == other.mmap
        &&& self.current_ifd_index == other.current_ifd_index
    }

    /// The tiles that a read fetches ahead: of the first `max_prefetch`
    /// predicted tiles those that the cache does not hold.
    pub open(crate) spec fn chosen(
        predicted: Seq<usize>,
        entries: Map<(usize, usize), Seq<u8>>,
        ifd_index: usize,
        max_prefetch: usize,
    ) -> Seq<usize> {
        let n = if max_prefetch < predicted.len() {
            max_prefetch as int
        } else {
            predicted.len() as int
        };
        ParallelReader::uncached(predicted.subrange(0, n), entries, ifd_index)
    }

    /// A tile reader with the default prefetch settings.
    pub fn new(
        reader: BufferedReader<R>,
        byte_order: ByteOrder,
        mmap: Option<Arc<Vec<u8>>>,
        cache_size: usize,
    ) -> (t: Self)
        requires
            mmap matches Some(bytes) ==> bytes@ == reader.source(),
        ensures
            t.wf(),
            t.spec_reader() == reader,
            t.spec_byte_order() == byte_order,
            t.spec_mmap() == mmap,
            t.spec_cache().entries() == (Map::<(usize, usize), Seq<u8>>::empty()),
            t.spec_cache().limit() == if cache_size >= 1 {
                cache_size as nat
            } else {
                1
            },
            t.spec_current_ifd_index() == 0,
            t.spec_access_pattern() is None,
            t.spec_pending_prefetch() is None,
            t.spec_prefetch_config().enabled,
            t.spec_prefetch_config().max_prefetch == 8,
    {
        Self {
            reader,
            byte_order,
            mmap,
            cache: TileCache::new(cache_size),
            current_ifd_index: 0,
            access_pattern: None,
            prefetch_config: PrefetchConfig::default(),
            pending_prefetch: None,
        }
    }

    /// A tile reader with the given prefetch settings.
    pub fn new_with_prefetch(
        reader: BufferedReader<R>,
        byte_order: ByteOrder,
        mmap: Option<Arc<Vec<u8>>>,
        cache_size: usize,
        prefetch_config: PrefetchConfig,
    ) -> (t: Self)
        requires
            mmap matches Some(bytes) ==> bytes@ == reader.source(),
        ensures
            t.wf(),
            t.spec_reader() == reader,
            t.spec_byte_order() == byte_order,
            t.spec_mmap() == mmap,
            t.spec_cache().entries() == (Map::<(usize, usize), Seq<u8>>::empty()),
            t.spec_cache().limit() == if cache_size >= 1 {
                cache_size as nat
            } else {
                1
            },
            t.spec_current_ifd_index() == 0,
            t.spec_access_pattern() is None,
            t.spec_pending_prefetch() is None,
            t.spec_prefetch_config() == prefetch_config,
    {
        Self {
            reader,
            byte_order,
            mmap,
            cache: TileCache::new(cache_size),
            current_ifd_index: 0,
            access_pattern: None,
            prefetch_config,
            pending_prefetch: None,
        }
    }

    /// Sets up the tracker of tile accesses for rows of `tiles_per_row`
    /// tiles, where prefetching is enabled.
    pub fn init_prefetch(&mut self, tiles_per_row: usize)
        ensures
            final(self).same_file(old(self)),
            final(self).spec_reader() == old(self).spec_reader(),
            final(self).spec_cache() == old(self).spec_cache(),
            final(self).spec_prefetch_config() == old(self).spec_prefetch_config(),
            final(self).spec_pending_prefetch() == old(self).spec_pending_prefetch(),
            if old(self).spec_prefetch_config().enabled {
                final(self).spec_access_pattern() matches Some(pattern) && pattern.history()
                    == Seq::<usize>::empty() && pattern.row_length() == tiles_per_row
            } else {
                final(self).spec_access_pattern() == old(self).spec_access_pattern()
            },
    {
        if self.prefetch_config.enabled {
            self.access_pattern = Some(AccessPattern::new(tiles_per_row));
        }
    }

    /// Sets the directory index under which tiles are cached.
    pub fn set_current_ifd(&mut self, index: usize)
        ensures
            final(self).spec_current_ifd_index() == index,
            final(self).spec_reader() == old(self).spec_reader(),
            final(self).spec_byte_order() == old(self).spec_byte_order(),
            final(self).spec_mmap() == old(self).spec_mmap(),
            final(self).spec_cache() == old(self).spec_cache(),
            final(self).spec_access_pattern() == old(self).spec_access_pattern(),
            final(self).spec_prefetch_config() == old(self).spec_prefetch_config(),
            final(self).spec_pending_prefetch() == old(self).spec_pending_prefetch(),
    {
        self.current_ifd_index = index;
    }

    /// The byte order of the file.
    pub fn byte_order(&self) -> (order: ByteOrder)
        ensures
            order == self.spec_byte_order(),
    {
        self.byte_order
    }

    /// The buffered reader of the file.
    pub fn reader_mut(&mut self) -> (r: &mut BufferedReader<R>)
        ensures
            *r == old(self).spec_reader(),
            final(self).spec_reader() == *final(r),
            final(self).spec_byte_order() == old(self).spec_byte_order(),
            final(self).spec_mmap() == old(self).spec_mmap(),
            final(self).spec_cache() == old(self).spec_cache(),
            final(self).spec_current_ifd_index() == old(self).spec_current_ifd_index(),
            final(self).spec_access_pattern() == old(self).spec_access_pattern(),
            final(self).spec_prefetch_config() == old(self).spec_prefetch_config(),
            final(self).spec_pending_prefetch() == old(self).spec_pending_prefetch(),
    {
        &mut self.reader
    }

    /// The cache of decompressed tiles.
    pub fn cache(&self) -> (c: &TileCache)
        ensures
            *c == self.spec_cache(),
    {
        &self.cache
    }

    /// The cache of decompressed tiles, to look into and to fill by hand.
    pub fn cache_mut(&mut self) -> (c: &mut TileCache)
        ensures
            *c == old(self).spec_cache(),
            final(self).spec_cache() == *final(c),
            final(self).spec_reader() == old(self).spec_reader(),
            final(self).spec_byte_order() == old(self).spec_byte_order(),
            final(self).spec_mmap() == old(self).spec_mmap(),
            final(self).spec_current_ifd_index() == old(self).spec_current_ifd_index(),
            final(self).spec_access_pattern() == old(self).spec_access_pattern(),
            final(self).spec_prefetch_config() == old(self).spec_prefetch_config(),
            final(self).spec_pending_prefetch() == old(self).spec_pending_prefetch(),
    {
        &mut self.cache
    }

    /// The directory index under which tiles are cached.
    pub fn current_ifd_index(&self) -> (index: usize)
        ensures
            index == self.spec_current_ifd_index(),
    {
        self.current_ifd_index
    }

    /// The tracker of tile accesses, once prefetching is set up.
    pub fn access_pattern(&self) -> (p: &Option<AccessPattern>)
        ensures
            *p == self.spec_access_pattern(),
    {
        &self.access_pattern
    }

    /// The bytes of the file, where they are held in memory.
    pub fn mmap(&self) -> (m: &Option<Arc<Vec<u8>>>)
        ensures
            *m == self.spec_mmap(),
    {
        &self.mmap
    }

    /// Takes the request that the last read left, if any.
    pub fn take_prefetch_request(&mut self) -> (r: Option<PrefetchRequest>)
        ensures
            r == old(self).spec_pending_prefetch(),
            final(self).spec_pending_prefetch() is None,
            final(self).spec_reader() == old(self).spec_reader(),
            final(self).spec_byte_order() == old(self).spec_byte_order(),
            final(self).spec_mmap() == old(self).spec_mmap(),
            final(self).spec_cache() == old(self).spec_cache(),
            final(self).spec_current_ifd_index() == old(self).spec_current_ifd_index(),
            final(self).spec_access_pattern() == old(self).spec_access_pattern(),
            final(self).spec_prefetch_config() == old(self).spec_prefetch_config(),
    {
        let mut taken: Option<PrefetchRequest> = None;
        core::mem::swap(&mut self.pending_prefetch, &mut taken);
        taken
    }

    /// Reads element `index` of the array of `entry` with the reader of the
    /// file. An element whose offset does not fit 64 bits is `InvalidOffset`.
    fn read_array_element(&mut self, entry: &IFDEntry, index: usize) -> (r: Result<u64, Error>)
        ensures
            final(self).same_file(old(self)),
            final(self).cache == old(self).cache,
            final(self).access_pattern == old(self).access_pattern,
            final(self).prefetch_config == old(self).prefetch_config,
            final(self).pending_prefetch == old(self).pending_prefetch,
            r matches Ok(v) ==> Tiles::element(
                old(self).reader.source(),
                old(self).byte_order,
                *entry,
                index as nat,
            ) == Some(v),
            r matches Err(e) ==> e is Io || (e is InvalidOffset && Tiles::element_offset(
                *entry,
                index as nat,
            ) > u64::MAX),
            r matches Err(e) ==> (e is Io && !old(self).reader.reliable()) || Self::element_refused(
                e,
                *entry,
                index as nat,
            ),
            old(self).reader.reliable() ==> (r is Ok <==> Tiles::element(
                old(self).reader.source(),
                old(self).byte_order,
                *entry,
                index as nat,
            ) is Some),
    {
        let size: usize = entry.field_type_size();
        let at: u128 = entry.value_offset as u128 + index as u128 * size as u128;
        if at > u64::MAX as u128 {
            return Err(Error::InvalidOffset(entry.value_offset));
        }
        let file_offset: u64 = at as u64;
        match self.reader.seek(SeekFrom::Start(file_offset)) {
            Ok(_) => {},
            Err(e) => {
                return Err(e);
            },
        }
        let handler = self.byte_order.handler();
        proof {
            let source = self.reader.source();
            let width = Tiles::element_width(*entry);
            self.reader.lemma_source_fits();
            if at + width <= source.len() {
                SeekFrom::lemma_tail_step(source, at as nat, width);
            } else if at <= source.len() {
                SeekFrom::lemma_tail_step(source, at as nat, 0);
            }
            ByteOrder::lemma_weights();
        }
        if size == 8 {
            handler.read_u64(&mut self.reader)
        } else {
            match handler.read_u32(&mut self.reader) {
                Ok(v) => Ok(v as u64),
                Err(e) => Err(e),
            }
        }
    }

    /// Reads the offset of tile `index` from the array of `entry`.
    pub fn read_tile_offset(&mut self, entry: &IFDEntry, index: usize) -> (r: Result<u64, Error>)
        ensures
            final(self).same_file(old(self)),
            final(self).spec_cache() == old(self).spec_cache(),
            final(self).spec_access_pattern() == old(self).spec_access_pattern(),
            final(self).spec_prefetch_config() == old(self).spec_prefetch_config(),
            final(self).spec_pending_prefetch() == old(self).spec_pending_prefetch(),
            r matches Ok(v) ==> Tiles::element(
                old(self).spec_reader().source(),
                old(self).spec_byte_order(),
                *entry,
                index as nat,
            ) == Some(v),
            r matches Err(e) ==> e is Io || (e is InvalidOffset && Tiles::element_offset(
                *entry,
                index as nat,
            ) > u64::MAX),
            r matches Err(e) ==> (e is Io && !old(self).spec_reader().reliable()) || Self::element_refused(
                e,
                *entry,
                index as nat,
            ),
            old(self).spec_reader().reliable() ==> (r is Ok <==> Tiles::element(
                old(self).spec_reader().source(),
                old(self).spec_byte_order(),
                *entry,
                index as nat,
            ) is Some),
    {
        self.read_array_element(entry, index)
    }

    /// Reads the byte count of tile `index` from the array of `entry`.
    pub fn read_tile_byte_count(&mut self, entry: &IFDEntry, index: usize) -> (r: Result<
        u64,
        Error,
    >)
        ensures
            final(self).same_file(old(self)),
            final(self).spec_cache() == old(self).spec_cache(),
            final(self).spec_access_pattern() == old(self).spec_access_pattern(),
            final(self).spec_prefetch_config() == old(self).spec_prefetch_config(),
            final(self).spec_pending_prefetch() == old(self).spec_pending_prefetch(),
            r matches Ok(v) ==> Tiles::element(
                old(self).spec_reader().source(),
                old(self).spec_byte_order(),
                *entry,
                index as nat,
            ) == Some(v),
            r matches Err(e) ==> e is Io || (e is InvalidOffset && Tiles::element_offset(
                *entry,
                index as nat,
            ) > u64::MAX),
            r matches Err(e) ==> (e is Io && !old(self).spec_reader().reliable()) || Self::element_refused(
                e,
                *entry,
                index as nat,
            ),
            old(self).spec_reader().reliable() ==> (r is Ok <==> Tiles::element(
                old(self).spec_reader().source(),
                old(self).spec_byte_order(),
                *entry,
                index as nat,
            ) is Some),
    {
        self.read_array_element(entry, index)
    }

    /// Reads the offset of tile `index` from the bytes of the file held in
    /// memory. Without them the read is `Unsupported`.
    pub fn read_tile_offset_static(
        entry: &IFDEntry,
        index: usize,
        mmap: &Option<Arc<Vec<u8>>>,
        byte_order: ByteOrder,
    ) -> (r: Result<u64, Error>)
        ensures
            match (*mmap, r) {
                (Some(bytes), Ok(v)) => Tiles::element(bytes@, byte_order, *entry, index as nat)
                    == Some(v),
                (Some(bytes), Err(e)) => Tiles::element(bytes@, byte_order, *entry, index as nat)
                    is None && e is OutOfBounds,
                (None, Ok(_)) => false,
                (None, Err(e)) => e is Unsupported,
            },
    {
        match mmap {
            Some(bytes) => Tiles::read_element(bytes.as_slice(), byte_order, entry, index),
            None => Err(Error::Unsupported("Parallel reading requires memory mapping".to_string())),
        }
    }

    /// Reads the byte count of tile `index` from the bytes of the file held
    /// in memory. Without them the read is `Unsupported`.
    pub fn read_tile_byte_count_static(
        entry: &IFDEntry,
        index: usize,
        mmap: &Option<Arc<Vec<u8>>>,
        byte_order: ByteOrder,
    ) -> (r: Result<u64, Error>)
        ensures
            match (*mmap, r) {
                (Some(bytes), Ok(v)) => Tiles::element(bytes@, byte_order, *entry, index as nat)
                    == Some(v),
                (Some(bytes), Err(e)) => Tiles::element(bytes@, byte_order, *entry, index as nat)
                    is None && e is OutOfBounds,
                (None, Ok(_)) => false,
                (None, Err(e)) => e is Unsupported,
            },
    {
        match mmap {
            Some(bytes) => Tiles::read_element(bytes.as_slice(), byte_order, entry, index),
            None => Err(Error::Unsupported("Parallel reading requires memory mapping".to_string())),
        }
    }

    /// Reads compressed tile data from the bytes held in memory, or with the
    /// reader of the file.
    fn read_compressed_data(&mut self, offset: u64, byte_count: u64) -> (r: Result<Vec<u8>, Error>)
        requires
            old(self).wf(),
            byte_count > 0,
        ensures
            final(self).same_file(old(self)),
            final(self).cache == old(self).cache,
            final(self).access_pattern == old(self).access_pattern,
            final(self).prefetch_config == old(self).prefetch_config,
            final(self).pending_prefetch == old(self).pending_prefetch,
            r matches Ok(data) ==> offset + byte_count <= old(self).reader.source().len()
                && byte_count <= usize::MAX && data@ == old(self).reader.source().subrange(
                offset as int,
                (offset + byte_count) as int,
            ),
            r matches Err(e) ==> (e is Io && !old(self).reader.reliable() && old(self).mmap is None)
                || if old(self).mmap is Some || byte_count > usize::MAX {
                e is OutOfBounds
            } else {
                e is Io
            },
            old(self).reader.reliable() || old(self).mmap is Some ==> (r is Ok <==> offset
                + byte_count <= old(self).reader.source().len() && byte_count <= usize::MAX),
    {
        if let Some(bytes) = &self.mmap {
            let len: usize = bytes.len();
            if offset > len as u64 || byte_count > len as u64 - offset {
                return Err(Error::OutOfBounds("Tile data range exceeds file size".to_string()));
            }
            let start: usize = offset as usize;
            let end: usize = start + byte_count as usize;
            return Ok(vstd::slice::slice_to_vec(slice_subrange(bytes.as_slice(), start, end)));
        }
        match self.reader.seek(SeekFrom::Start(offset)) {
            Ok(_) => {},
            Err(e) => {
                return Err(e);
            },
        }
        proof {
            let source = self.reader.source();
            if offset + byte_count <= source.len() {
                SeekFrom::lemma_tail_step(source, offset as nat, byte_count as nat);
            } else if offset <= source.len() {
                SeekFrom::lemma_tail_step(source, offset as nat, 0);
            }
        }
        if byte_count > usize::MAX as u64 {
            return Err(Error::OutOfBounds("Tile data does not fit".to_string()));
        }
        let mut buffer: Vec<u8> = vec_of_zeros(byte_count as usize);
        match self.reader.read_exact(buffer.as_mut_slice()) {
            Ok(()) => Ok(buffer),
            Err(e) => Err(e),
        }
    }

    /// What the error says where element `index` of the array of `entry`
    /// cannot be read with the reader of the file: an offset beyond 64 bits
    /// is `InvalidOffset`, an element beyond the file an I/O error.
    pub open(crate) spec fn element_refused(e: Error, entry: IFDEntry, index: nat) -> bool {
        if Tiles::element_offset(entry, index) > u64::MAX {
            e is InvalidOffset
        } else {
            e is Io
        }
    }

    /// What the error of a reader that does not fail on its own account says
    /// where tile `index` of `ifd` cannot be loaded: a directory without
    /// offsets or byte counts is `MissingTag` with the tag; for the elements
    /// of the arrays see `element_refused`; compressed bytes beyond the file
    /// are `OutOfBounds` where the bytes of the file are held in memory, else
    /// an I/O error; for the rest see `Tiles::load_refused`.
    pub open(crate) spec fn refused(&self, e: Error, ifd: IFD, index: nat) -> bool {
        let source = self.reader.source();
        match (ifd.spec_get_entry(tags::TILE_OFFSETS), ifd.spec_get_entry(tags::TILE_BYTE_COUNTS)) {
            (None, _) => e == Error::MissingTag(tags::TILE_OFFSETS),
            (Some(_), None) => e == Error::MissingTag(tags::TILE_BYTE_COUNTS),
            (Some(offsets), Some(counts)) => match (
                Tiles::element(source, self.byte_order, offsets, index),
                Tiles::element(source, self.byte_order, counts, index),
            ) {
                (None, _) => Self::element_refused(e, offsets, index),
                (Some(_), None) => Self::element_refused(e, counts, index),
                (Some(offset), Some(byte_count)) => if byte_count != 0 && offset + byte_count
                    > source.len() && self.mmap is None && byte_count <= usize::MAX {
                    e is Io
                } else {
                    Tiles::load_refused(
                        e,
                        source,
                        ifd.spec_value_or(tags::COMPRESSION, 1),
                        ifd.spec_value_or(tags::PREDICTOR, 1),
                        ifd.spec_tile_dimensions(),
                        offset,
                        byte_count,
                    )
                },
            },
        }
    }

    /// The request that a read leaves for the predicted tiles: none when
    /// prefetching is disabled, nothing is predicted, the cache holds all
    /// that is chosen, or the directory lacks the offsets or byte counts tag.
    pub open(crate) spec fn requested(
        config: PrefetchConfig,
        predicted: Seq<usize>,
        entries: Map<(usize, usize), Seq<u8>>,
        ifd_index: usize,
        ifd: IFD,
    ) -> Option<Seq<usize>> {
        let picks = Self::chosen(predicted, entries, ifd_index, config.max_prefetch);
        if !config.enabled || predicted.len() == 0 || picks.len() == 0 || ifd.spec_get_entry(
            tags::TILE_OFFSETS,
        ) is None || ifd.spec_get_entry(tags::TILE_BYTE_COUNTS) is None {
            None
        } else {
            Some(picks)
        }
    }

    /// Whether the tracker `after` is the tracker `before` with one more
    /// access recorded: the history keeps the eight latest.
    pub open(crate) spec fn recorded(
        before: Option<AccessPattern>,
        after: Option<AccessPattern>,
        tile_index: usize,
    ) -> bool {
        match before {
            None => after is None,
            Some(p) => after is Some && after->Some_0.row_length() == p.row_length()
                && after->Some_0.history() == if p.history().len()
                >= crate::cache_prefetch::HISTORY_SIZE {
                p.history().skip(1).push(tile_index)
            } else {
                p.history().push(tile_index)
            },
        }
    }

    /// Whether `pending` is the request for what the tracker forecasts:
    /// nothing without a tracker, or where the tracker cannot predict.
    pub open(crate) spec fn planned(
        pending: Option<PrefetchRequest>,
        config: PrefetchConfig,
        pattern: Option<AccessPattern>,
        entries: Map<(usize, usize), Seq<u8>>,
        ifd_index: usize,
        ifd: IFD,
    ) -> bool {
        let predicted = if pattern is Some && pattern->Some_0.can_predict() {
            pattern->Some_0.forecast()
        } else {
            Seq::empty()
        };
        match Self::requested(config, predicted, entries, ifd_index, ifd) {
            Some(picks) => pending is Some && Self::asks_for(pending->Some_0, picks, ifd),
            None => pending is None,
        }
    }

    /// Whether `request` asks for the tiles `picks` of `ifd`.
    pub open(crate) spec fn asks_for(request: PrefetchRequest, picks: Seq<usize>, ifd: IFD) -> bool {
        &&& request.tile_indices@ == picks
        &&& request.ifd.wf()
        &&& request.ifd.listed() == ifd.listed()
        &&& request.ifd.spec_number() == ifd.spec_number()
        &&& request.ifd.spec_offset() == ifd.spec_offset()
        &&& Some(request.offsets_entry) == ifd.spec_get_entry(tags::TILE_OFFSETS)
        &&& Some(request.byte_counts_entry) == ifd.spec_get_entry(tags::TILE_BYTE_COUNTS)
    }

    /// Decides which of the predicted tiles to fetch ahead, and leaves the
    /// request to be taken. Each chosen tile that the cache holds counts as
    /// used.
    pub fn plan_prefetch(&mut self, ifd: &IFD, tile_indices: &[usize])
        requires
            old(self).wf(),
            ifd.wf(),
        ensures
            final(self).wf(),
            final(self).same_file(old(self)),
            final(self).spec_reader() == old(self).spec_reader(),
            final(self).spec_cache().entries() == old(self).spec_cache().entries(),
            final(self).spec_cache().limit() == old(self).spec_cache().limit(),
            final(self).spec_access_pattern() == old(self).spec_access_pattern(),
            final(self).spec_prefetch_config() == old(self).spec_prefetch_config(),
            match Self::requested(
                old(self).spec_prefetch_config(),
                tile_indices@,
                old(self).spec_cache().entries(),
                old(self).spec_current_ifd_index(),
                *ifd,
            ) {
                Some(picks) => final(self).spec_pending_prefetch() is Some && Self::asks_for(
                    final(self).spec_pending_prefetch()->Some_0,
                    picks,
                    *ifd,
                ),
                None => final(self).spec_pending_prefetch() is None,
            },
    {
        self.pending_prefetch = None;
        if !self.prefetch_config.enabled || tile_indices.len() == 0 {
            return ;
        }
        let max_prefetch: usize = if self.prefetch_config.max_prefetch < tile_indices.len() {
            self.prefetch_config.max_prefetch
        } else {
            tile_indices.len()
        };
        let tiles_to_fetch = ParallelReader::find_uncached_indices(
            slice_subrange(tile_indices, 0, max_prefetch),
            &mut self.cache,
            self.current_ifd_index,
        );
        if tiles_to_fetch.len() == 0 {
            return ;
        }
        let offsets_entry = match ifd.get_entry(tags::TILE_OFFSETS) {
            Some(e) => *e,
            None => {
                return ;
            },
        };
        let byte_counts_entry = match ifd.get_entry(tags::TILE_BYTE_COUNTS) {
            Some(e) => *e,
            None => {
                return ;
            },
        };
        self.pending_prefetch = Some(
            PrefetchRequest {
                tile_indices: tiles_to_fetch,
                ifd: Arc::new(ifd.duplicate()),
                offsets_entry,
                byte_counts_entry,
            },
        );
    }

    /// Loads a tile that is not in cache
    fn load_uncached_tile(&mut self, ifd: &IFD, tile_index: usize) -> (r: Result<Vec<u8>, Error>)
        requires
            old(self).wf(),
            ifd.wf(),
        ensures
            final(self).same_file(old(self)),
            final(self).cache == old(self).cache,
            final(self).access_pattern == old(self).access_pattern,
            final(self).prefetch_config == old(self).prefetch_config,
            final(self).pending_prefetch == old(self).pending_prefetch,
            r matches Ok(data) ==> Tiles::tile(
                old(self).reader.source(),
                old(self).byte_order,
                *ifd,
                tile_index as nat,
            ) == Some(data@),
            r matches Err(e) ==> (e is Io && !old(self).reader.reliable()) || old(self).refused(
                e,
                *ifd,
                tile_index as nat,
            ),
            old(self).reader.reliable() ==> (r is Ok <==> Tiles::tile(
                old(self).reader.source(),
                old(self).byte_order,
                *ifd,
                tile_index as nat,
            ) is Some),
    {
        let offsets_entry = match ifd.get_entry(tags::TILE_OFFSETS) {
            Some(e) => *e,
            None => {
                return Err(Error::MissingTag(tags::TILE_OFFSETS));
            },
        };
        let byte_counts_entry = match ifd.get_entry(tags::TILE_BYTE_COUNTS) {
            Some(e) => *e,
            None => {
                return Err(Error::MissingTag(tags::TILE_BYTE_COUNTS));
            },
        };
        let offset = match self.read_tile_offset(&offsets_entry, tile_index) {
            Ok(v) => v,
            Err(e) => {
                return Err(e);
            },
        };
        let byte_count = match self.read_tile_byte_count(&byte_counts_entry, tile_index) {
            Ok(v) => v,
            Err(e) => {
                return Err(e);
            },
        };
        if byte_count == 0 {
            return Tiles::create_empty_tile(ifd.tile_dimensions());
        }
        let compressed_data = match self.read_compressed_data(offset, byte_count) {
            Ok(d) => d,
            Err(e) => {
                return Err(e);
            },
        };
        self.decompress_and_apply_predictor(ifd, compressed_data.as_slice())
    }

    /// Decompresses tile data and applies predictor if needed
    fn decompress_and_apply_predictor(&self, ifd: &IFD, compressed_data: &[u8]) -> (r: Result<
        Vec<u8>,
        Error,
    >)
        requires
            ifd.wf(),
        ensures
            match r {
                Ok(data) => Tiles::decoded(
                    ifd.spec_value_or(tags::COMPRESSION, 1),
                    ifd.spec_value_or(tags::PREDICTOR, 1),
                    ifd.spec_tile_dimensions(),
                    compressed_data@,
                ) == Some(data@),
                Err(e) => Tiles::decoded(
                    ifd.spec_value_or(tags::COMPRESSION, 1),
                    ifd.spec_value_or(tags::PREDICTOR, 1),
                    ifd.spec_tile_dimensions(),
                    compressed_data@,
                ) is None && Tiles::decode_refused(
                    e,
                    ifd.spec_value_or(tags::COMPRESSION, 1),
                    ifd.spec_value_or(tags::PREDICTOR, 1),
                    ifd.spec_tile_dimensions(),
                    compressed_data@,
                ),
            },
    {
        let compression_value = match ifd.compression() {
            Some(v) => v,
            None => 1,
        };
        let predictor = match ifd.get_tag_value(tags::PREDICTOR) {
            Some(v) => v,
            None => 1,
        };
        Tiles::decode(compression_value, predictor, ifd.tile_dimensions(), compressed_data)
    }

    /// Reads a tile with caching and optional prefetching. A tile that the
    /// cache holds under the current directory index is returned from there.
    /// Any other tile is loaded from the file and put into the cache; then,
    /// where prefetching is set up, the access is recorded and the tiles to
    /// fetch ahead are left as a request to be taken.
    pub fn read_tile(&mut self, ifd: &IFD, tile_index: usize) -> (r: Result<Vec<u8>, Error>)
        requires
            old(self).wf(),
            ifd.wf(),
        ensures
            final(self).wf(),
            final(self).same_file(old(self)),
            final(self).spec_prefetch_config() == old(self).spec_prefetch_config(),
            final(self).spec_cache().limit() == old(self).spec_cache().limit(),
            r matches Ok(data) ==> if old(self).spec_cache().entries().contains_key(
                (old(self).spec_current_ifd_index(), tile_index),
            ) {
                &&& data@ == old(self).spec_cache().entries()[(old(self).spec_current_ifd_index(), tile_index)]
                &&& final(self).spec_cache().entries() == old(self).spec_cache().entries()
                &&& final(self).spec_access_pattern() == old(self).spec_access_pattern()
            } else {
                &&& Tiles::tile(
                    old(self).spec_reader().source(),
                    old(self).spec_byte_order(),
                    *ifd,
                    tile_index as nat,
                ) == Some(data@)
                &&& final(self).spec_cache().entries() == TileCache::evicted(
                    old(self).spec_cache().entries(),
                    old(self).spec_cache().recency(),
                    old(self).spec_cache().limit(),
                ).0.insert((old(self).spec_current_ifd_index(), tile_index), data@)
            },
            r is Ok && !old(self).spec_cache().entries().contains_key(
                (old(self).spec_current_ifd_index(), tile_index),
            ) ==> Self::recorded(
                old(self).spec_access_pattern(),
                final(self).spec_access_pattern(),
                tile_index,
            ) && Self::planned(
                final(self).spec_pending_prefetch(),
                final(self).spec_prefetch_config(),
                final(self).spec_access_pattern(),
                final(self).spec_cache().entries(),
                final(self).spec_current_ifd_index(),
                *ifd,
            ),
            r is Err || old(self).spec_cache().entries().contains_key(
                (old(self).spec_current_ifd_index(), tile_index),
            ) ==> final(self).spec_pending_prefetch() is None,
            r is Err ==> final(self).spec_cache().entries() == old(self).spec_cache().entries(),
            r is Err ==> final(self).spec_cache().recency() == old(self).spec_cache().recency(),
            r is Err ==> !old(self).spec_cache().entries().contains_key(
                (old(self).spec_current_ifd_index(), tile_index),
            ),
            r matches Err(e) ==> (e is Io && !old(self).spec_reader().reliable()) || old(self).refused(
                e,
                *ifd,
                tile_index as nat,
            ),
            r is Err ==> final(self).spec_access_pattern() == old(self).spec_access_pattern(),
            old(self).spec_reader().reliable() ==> (r is Ok <==> old(self).spec_cache().entries().contains_key(
                (old(self).spec_current_ifd_index(), tile_index),
            ) || Tiles::tile(
                old(self).spec_reader().source(),
                old(self).spec_byte_order(),
                *ifd,
                tile_index as nat,
            ) is Some),
            old(self).coherent(*ifd) ==> final(self).coherent(*ifd) && (r matches Ok(data)
                ==> Tiles::tile(
                old(self).spec_reader().source(),
                old(self).spec_byte_order(),
                *ifd,
                tile_index as nat,
            ) == Some(data@)),
    {
        self.pending_prefetch = None;
        if let Some(cached_data) = self.cache.get(self.current_ifd_index, tile_index) {
            return Ok(copy_of(&cached_data));
        }
        let tile_data = match self.load_uncached_tile(ifd, tile_index) {
            Ok(d) => d,
            Err(e) => {
                return Err(e);
            },
        };
        let ghost before = self.cache.entries();
        let ghost queue = self.cache.recency();
        let copy = vstd::slice::slice_to_vec(tile_data.as_slice());
        self.cache.put(self.current_ifd_index, tile_index, copy);
        proof {
            TileCache::lemma_evicted_keeps(before, queue, self.cache.limit());
        }
        let mut to_prefetch: Vec<usize> = Vec::new();
        if let Some(pattern) = &mut self.access_pattern {
            pattern.record(tile_index);
            if pattern.predictable() {
                to_prefetch = pattern.predict_next();
            }
        }
        self.plan_prefetch(ifd, to_prefetch.as_slice());
        Ok(tile_data)
    }

    /// Puts tiles that were fetched ahead into the cache, under the current
    /// directory index and in their order.
    pub fn absorb_prefetched(&mut self, results: &[PrefetchResult])
        requires
            old(self).wf(),
        ensures
            final(self).wf(),
            final(self).same_file(old(self)),
            final(self).spec_reader() == old(self).spec_reader(),
            final(self).spec_cache().limit() == old(self).spec_cache().limit(),
            final(self).spec_access_pattern() == old(self).spec_access_pattern(),
            final(self).spec_prefetch_config() == old(self).spec_prefetch_config(),
            final(self).spec_pending_prefetch() == old(self).spec_pending_prefetch(),
            (final(self).spec_cache().entries(), final(self).spec_cache().recency()) == Self::absorbed(
                old(self).spec_cache().entries(),
                old(self).spec_cache().recency(),
                old(self).spec_cache().limit(),
                old(self).spec_current_ifd_index(),
                results@,
            ),
            forall|ifd: IFD|
                old(self).coherent(ifd) && #[trigger] Self::loaded_from(
                    results@,
                    old(self).spec_reader().source(),
                    old(self).spec_byte_order(),
                    ifd,
                ) ==> final(self).coherent(ifd),
    {
        let mut i: usize = 0;
        assert(results@.skip(0) =~= results@);
        while i < results.len()
            invariant
                i <= results@.len(),
                self.wf(),
                self.same_file(old(self)),
                self.reader == old(self).reader,
                self.cache.limit() == old(self).cache.limit(),
                self.access_pattern == old(self).access_pattern,
                self.prefetch_config == old(self).prefetch_config,
                self.pending_prefetch == old(self).pending_prefetch,
                Self::absorbed(
                    self.cache.entries(),
                    self.cache.recency(),
                    self.cache.limit(),
                    self.current_ifd_index,
                    results@.skip(i as int),
                ) == Self::absorbed(
                    old(self).cache.entries(),
                    old(self).cache.recency(),
                    old(self).cache.limit(),
                    old(self).current_ifd_index,
                    results@,
                ),
                forall|ifd: IFD|
                    old(self).coherent(ifd) && #[trigger] Self::loaded_from(
                        results@,
                        old(self).reader.source(),
                        old(self).byte_order,
                        ifd,
                    ) ==> self.coherent(ifd),
            decreases results@.len() - i,
        {
            let ghost before = self.cache.entries();
            let ghost queue = self.cache.recency();
            let ghost rest = results@.skip(i as int);
            let result = &results[i];
            let data = vstd::slice::slice_to_vec(result.tile_data.as_slice());
            self.cache.put(self.current_ifd_index, result.tile_index, data);
            proof {
                TileCache::lemma_evicted_keeps(before, queue, self.cache.limit());
                assert(rest[0] == results@[i as int]);
                assert(rest.skip(1) =~= results@.skip(i + 1));
                assert forall|ifd: IFD|
                    old(self).coherent(ifd) && #[trigger] Self::loaded_from(
                        results@,
                        old(self).reader.source(),
                        old(self).byte_order,
                        ifd,
                    ) implies self.coherent(ifd) by {
                    assert(Tiles::tile(
                        old(self).reader.source(),
                        old(self).byte_order,
                        ifd,
                        results@[i as int].tile_index as nat,
                    ) == Some(results@[i as int].tile_data@));
                }
            }
            i = i + 1;
        }
    }

    /// The tiles and the queue of a cache after the results of prefetching
    /// are put into it in their order.
    pub open(crate) spec fn absorbed(
        entries: Map<(usize, usize), Seq<u8>>,
        queue: Seq<(usize, usize)>,
        limit: nat,
        ifd_index: usize,
        results: Seq<PrefetchResult>,
    ) -> (Map<(usize, usize), Seq<u8>>, Seq<(usize, usize)>)
        decreases results.len(),
    {
        if results.len() == 0 {
            (entries, queue)
        } else {
            let next = TileCache::after_put(
                entries,
                queue,
                limit,
                (ifd_index, results[0].tile_index),
                results[0].tile_data@,
            );
            Self::absorbed(next.0, next.1, limit, ifd_index, results.skip(1))
        }
    }

    /// Whether each result holds the tile of its index in `ifd`.
    pub open(crate) spec fn loaded_from(
        results: Seq<PrefetchResult>,
        source: Seq<u8>,
        order: ByteOrder,
        ifd: IFD,
    ) -> bool {
        forall|i: int|
            0 <= i < results.len() ==> Tiles::tile(
                source,
                order,
                ifd,
                (#[trigger] results[i]).tile_index as nat,
            ) == Some(results[i].tile_data@)
    }
}

} // verus!
