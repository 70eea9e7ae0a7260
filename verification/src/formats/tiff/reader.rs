//! TIFF reader modules
//!
//! A file starts with two bytes that name its byte order and the magic
//! number 42 (classic TIFF, 32-bit offsets) or 43 (BigTIFF, 64-bit offsets).
//! The offset of the first directory follows. A directory is a count, that
//! many entries, and the offset of the next directory; the chain ends with
//! an offset of zero.

pub mod pixels;
pub mod predictor;
pub mod tags;
pub mod tiles;
pub mod parallel;

pub use crate::cache_prefetch::PrefetchConfig;

use vstd::prelude::*;
use std::sync::Arc;
use crate::cache::TileCache;
use crate::cache_prefetch_async::{PrefetchRequest, PrefetchResult};
use crate::error::Error;
use crate::formats::tiff::ifd::{IFDEntry, IFD};
use crate::formats::tiff::types::Tiff;
use crate::formats::tiff::{BIGTIFF_MAGIC, TIFF_MAGIC};
use crate::io::buffer::BufferedReader;
use crate::io::byte_order::{ByteOrder, ByteOrderHandler, OrderHandler};
use crate::io::cursor::Cursor;
use crate::io::traits::{SeekFrom, SeekableReader};
use crate::text::{concat, format_u64};
use std::collections::HashMap;
use crate::formats::tiff::reader::parallel::ParallelReader;
use crate::formats::tiff::reader::pixels::PixelReader;
use crate::formats::tiff::reader::tags::{FloatBits, TagReader};
use crate::formats::tiff::reader::tiles::{TileReader, Tiles};

verus! {

broadcast use vstd::std_specs::hash::group_hash_axioms;

/// What the first bytes of a file say.
pub enum Header {
    /// A classic TIFF of the given byte order.
    Classic(ByteOrder),
    /// A BigTIFF of the given byte order.
    Big(ByteOrder),
    /// The file ends within its header.
    Truncated,
    /// The first two bytes name no byte order; the word they spell.
    BadByteOrder(u16),
    /// The magic number is neither 42 nor 43; the number.
    BadMagic(u16),
    /// The offset size of a BigTIFF is not 8.
    BadOffsetSize(u16),
}

/// Why the directories of a file cannot be read.
pub enum ChainFailure {
    /// The file ends within a directory, or before one.
    Truncated,
    /// The chain holds more than a thousand directories.
    TooMany,
}

/// The layout of the header and the directories in the bytes of a file.
pub struct Directories;

impl Directories {
    /// The most directories that a file may hold.
    pub open spec fn limit() -> nat {
        1000
    }

    /// The value of the `width` bytes at offset `at`: `None` where the file
    /// ends before them.
    pub open spec fn field(source: Seq<u8>, order: ByteOrder, at: nat, width: nat) -> Option<nat> {
        if at + width <= source.len() {
            Some(order.value(source.subrange(at as int, (at + width) as int)))
        } else {
            None
        }
    }

    /// What the header of a file says.
    pub open spec fn header(source: Seq<u8>) -> Header {
        if source.len() < 2 {
            Header::Truncated
        } else {
            match ByteOrder::spec_from_tiff_magic(source[0], source[1]) {
                None => Header::BadByteOrder((source[0] as u16 * 256 + source[1]) as u16),
                Some(order) => match Self::field(source, order, 2, 2) {
                    None => Header::Truncated,
                    Some(magic) => if magic == TIFF_MAGIC {
                        Header::Classic(order)
                    } else if magic == BIGTIFF_MAGIC {
                        match (Self::field(source, order, 4, 2), Self::field(source, order, 6, 2)) {
                            (Some(size), Some(_)) => if size == 8 {
                                Header::Big(order)
                            } else {
                                Header::BadOffsetSize(size as u16)
                            },
                            (Some(size), None) => if size == 8 {
                                Header::Truncated
                            } else {
                                Header::BadOffsetSize(size as u16)
                            },
                            _ => Header::Truncated,
                        }
                    } else {
                        Header::BadMagic(magic as u16)
                    },
                },
            }
        }
    }

    /// The width of an offset or a count of values in bytes.
    pub open spec fn offset_width(is_big_tiff: bool) -> nat {
        if is_big_tiff {
            8
        } else {
            4
        }
    }

    /// The width of the number of entries of a directory in bytes.
    pub open spec fn count_width(is_big_tiff: bool) -> nat {
        if is_big_tiff {
            8
        } else {
            2
        }
    }

    /// The size of one entry in bytes.
    pub open spec fn entry_size(is_big_tiff: bool) -> nat {
        if is_big_tiff {
            20
        } else {
            12
        }
    }

    /// Where the offset of the first directory stands.
    pub open spec fn first_offset_at(is_big_tiff: bool) -> nat {
        if is_big_tiff {
            8
        } else {
            4
        }
    }

    /// The entry at offset `at`: tag, field type, count and value slot.
    pub open spec fn entry_at(source: Seq<u8>, order: ByteOrder, is_big_tiff: bool, at: nat)
        -> Option<IFDEntry> {
        let w = Self::offset_width(is_big_tiff);
        match (
            Self::field(source, order, at, 2),
            Self::field(source, order, at + 2, 2),
            Self::field(source, order, at + 4, w),
            Self::field(source, order, at + 4 + w, w),
        ) {
            (Some(tag), Some(field_type), Some(count), Some(value)) => Some(
                IFDEntry {
                    tag: tag as u16,
                    field_type: field_type as u16,
                    count: count as u64,
                    value_offset: value as u64,
                },
            ),
            _ => None,
        }
    }

    /// The `count` entries that start at offset `at`.
    pub open spec fn entries_at(
        source: Seq<u8>,
        order: ByteOrder,
        is_big_tiff: bool,
        at: nat,
        count: nat,
    ) -> Option<Seq<IFDEntry>>
        decreases count,
    {
        if count == 0 {
            Some(Seq::empty())
        } else {
            match (
                Self::entries_at(source, order, is_big_tiff, at, (count - 1) as nat),
                Self::entry_at(
                    source,
                    order,
                    is_big_tiff,
                    (at + (count - 1) * Self::entry_size(is_big_tiff)) as nat,
                ),
            ) {
                (Some(before), Some(entry)) => Some(before.push(entry)),
                _ => None,
            }
        }
    }

    /// The directory at `offset`: its entries and the offset of the next
    /// directory.
    pub open spec fn directory_at(source: Seq<u8>, order: ByteOrder, is_big_tiff: bool, offset: nat)
        -> Option<(Seq<IFDEntry>, u64)> {
        let c = Self::count_width(is_big_tiff);
        match Self::field(source, order, offset, c) {
            None => None,
            Some(count) => match Self::entries_at(source, order, is_big_tiff, offset + c, count) {
                None => None,
                Some(entries) => match Self::field(
                    source,
                    order,
                    offset + c + count * Self::entry_size(is_big_tiff),
                    Self::offset_width(is_big_tiff),
                ) {
                    None => None,
                    Some(next) => Some((entries, next as u64)),
                },
            },
        }
    }

    /// The directories of the chain that starts at `offset`, each with its
    /// offset, where `number` directories came before.
    pub open spec fn chain(
        source: Seq<u8>,
        order: ByteOrder,
        is_big_tiff: bool,
        offset: u64,
        number: nat,
    ) -> Result<Seq<(u64, Seq<IFDEntry>)>, ChainFailure>
        decreases Self::limit() - number,
    {
        if offset == 0 {
            Ok(Seq::empty())
        } else if number >= Self::limit() {
            Err(ChainFailure::TooMany)
        } else {
            match Self::directory_at(source, order, is_big_tiff, offset as nat) {
                None => Err(ChainFailure::Truncated),
                Some((entries, next)) => match Self::chain(
                    source,
                    order,
                    is_big_tiff,
                    next,
                    number + 1,
                ) {
                    Ok(rest) => Ok(seq![(offset, entries)] + rest),
                    Err(e) => Err(e),
                },
            }
        }
    }

    /// All directories of a file.
    pub open spec fn all(source: Seq<u8>, order: ByteOrder, is_big_tiff: bool) -> Result<
        Seq<(u64, Seq<IFDEntry>)>,
        ChainFailure,
    > {
        match Self::field(
            source,
            order,
            Self::first_offset_at(is_big_tiff),
            Self::offset_width(is_big_tiff),
        ) {
            None => Err(ChainFailure::Truncated),
            Some(first) => Self::chain(source, order, is_big_tiff, first as u64, 0),
        }
    }

    /// Whether `ifds` are the directories of `listing`, numbered from
    /// `from` on.
    pub open spec fn listed(ifds: Seq<IFD>, listing: Seq<(u64, Seq<IFDEntry>)>, from: nat) -> bool {
        &&& ifds.len() == listing.len()
        &&& forall|i: int|
            #![trigger ifds[i]]
            0 <= i < ifds.len() ==> {
                &&& ifds[i].wf()
                &&& ifds[i].spec_number() == from + i
                &&& ifds[i].spec_offset() == listing[i].0
                &&& ifds[i].listed() == listing[i].1
            }
    }

    /// Where `count` entries can be read, so can fewer, and each of them.
    pub proof fn lemma_entries_prefix(
        source: Seq<u8>,
        order: ByteOrder,
        is_big_tiff: bool,
        at: nat,
        count: nat,
        k: nat,
    )
        requires
            Self::entries_at(source, order, is_big_tiff, at, count) is Some,
            k <= count,
        ensures
            Self::entries_at(source, order, is_big_tiff, at, k) is Some,
            k < count ==> Self::entry_at(
                source,
                order,
                is_big_tiff,
                (at + k * Self::entry_size(is_big_tiff)) as nat,
            ) is Some,
        decreases count,
    {
        if k < count {
            Self::lemma_entries_prefix(source, order, is_big_tiff, at, (count - 1) as nat, k);
        }
    }

    /// Directories that were read, followed by what the rest of the chain
    /// gives.
    pub open spec fn continued(
        done: Seq<(u64, Seq<IFDEntry>)>,
        rest: Result<Seq<(u64, Seq<IFDEntry>)>, ChainFailure>,
    ) -> Result<Seq<(u64, Seq<IFDEntry>)>, ChainFailure> {
        match rest {
            Ok(more) => Ok(done + more),
            Err(e) => Err(e),
        }
    }

    /// A value read from what is left at offset `at` is the field at `at`,
    /// and leaves what is left behind it.
    pub proof fn lemma_fetched(
        source: Seq<u8>,
        order: ByteOrder,
        at: nat,
        width: nat,
        after: Seq<u8>,
        value: nat,
    )
        requires
            order.fetched(width, SeekFrom::tail(source, at), after, value),
            width > 0,
        ensures
            Self::field(source, order, at, width) == Some(value),
            after == SeekFrom::tail(source, at + width),
    {
        if at <= source.len() {
            SeekFrom::lemma_tail_step(source, at, 0);
            SeekFrom::lemma_tail_step(source, at, width);
        }
    }

    /// Where too few bytes are left at offset `at`, there is no field.
    pub proof fn lemma_not_fetched(source: Seq<u8>, order: ByteOrder, at: nat, width: nat)
        requires
            SeekFrom::tail(source, at).len() < width,
        ensures
            Self::field(source, order, at, width) is None,
    {
        if at <= source.len() {
            SeekFrom::lemma_tail_step(source, at, 0);
        }
    }
}

/// Where the samples of the pixels of a directory lie.
pub struct Pixels;

impl Pixels {
    /// The tile index and the place within the tile of pixel `(x, y)`:
    /// `None` where the directory is not tiled, lacks dimensions or tile
    /// dimensions, has a tile size of zero, the pixel lies outside the image,
    /// or an index does not fit `usize`.
    pub open spec fn place(ifd: IFD, x: u64, y: u64) -> Option<(usize, usize)> {
        match (ifd.spec_dimensions(), ifd.spec_tile_dimensions()) {
            (Some(dims), Some(tile)) => {
                let t = PixelReader::tile_index_of(dims, tile, x as int, y as int);
                let p = PixelReader::pixel_index_of(tile, x as int, y as int);
                if ifd.spec_is_tiled() && x < dims.width && y < dims.height && tile.width > 0
                    && tile.height > 0 && t <= usize::MAX && p <= usize::MAX {
                    Some((t as usize, p as usize))
                } else {
                    None
                }
            },
            _ => None,
        }
    }

    /// The `n` bytes of sample `p` of a tile: `None` where the tile is
    /// missing or ends before them.
    pub open spec fn cut(tile: Option<Seq<u8>>, p: usize, n: nat) -> Option<Seq<u8>> {
        match tile {
            Some(data) => if p * n + n <= data.len() {
                Some(data.subrange((p * n) as int, (p * n + n) as int))
            } else {
                None
            },
            None => None,
        }
    }

    /// The `n` bytes of the sample of pixel `(x, y)` in a file.
    pub open spec fn sample(source: Seq<u8>, order: ByteOrder, ifd: IFD, x: u64, y: u64, n: nat)
        -> Option<Seq<u8>> {
        match Self::place(ifd, x, y) {
            Some((t, p)) => Self::cut(Tiles::tile(source, order, ifd, t as nat), p, n),
            None => None,
        }
    }

    /// The one-byte samples of a list of pixels: `None` where one of them
    /// has none.
    pub open spec fn samples(source: Seq<u8>, order: ByteOrder, ifd: IFD, coords: Seq<(u64, u64)>)
        -> Option<Seq<u8>> {
        if forall|i: int|
            0 <= i < coords.len() ==> Self::sample(
                source,
                order,
                ifd,
                (#[trigger] coords[i]).0,
                coords[i].1,
                1,
            ) is Some {
            Some(
                Seq::new(
                    coords.len(),
                    |i: int| Self::sample(source, order, ifd, coords[i].0, coords[i].1, 1)->Some_0[0],
                ),
            )
        } else {
            None
        }
    }

    /// What the error says for a pixel that has no place: a directory that
    /// is not tiled is `Unsupported`, one without dimensions `InvalidFormat`,
    /// a pixel outside the image `OutOfBounds`, a directory without tile
    /// dimensions or with a tile size of zero `InvalidFormat`, an index beyond
    /// `usize` `OutOfBounds`.
    pub open spec fn misplaced(e: Error, ifd: IFD, x: u64, y: u64) -> bool {
        if !ifd.spec_is_tiled() {
            e is Unsupported
        } else {
            match (ifd.spec_dimensions(), ifd.spec_tile_dimensions()) {
                (None, _) => e is InvalidFormat,
                (Some(dims), tile) => if x >= dims.width || y >= dims.height {
                    e is OutOfBounds
                } else if tile is None || tile->Some_0.width == 0 || tile->Some_0.height == 0 {
                    e is InvalidFormat
                } else {
                    e is OutOfBounds
                },
            }
        }
    }

    /// Whether pixel `coords[i]` is the first of the list that has no place.
    pub open spec fn first_misplaced(ifd: IFD, coords: Seq<(u64, u64)>, i: int) -> bool {
        &&& 0 <= i < coords.len()
        &&& forall|j: int|
            0 <= j < i ==> Self::place(ifd, (#[trigger] coords[j]).0, coords[j].1) is Some
        &&& Self::place(ifd, coords[i].0, coords[i].1) is None
    }

    /// The tiles that hold the pixels of a list, each tile once, in the
    /// order in which the pixels first name them.
    pub open spec fn tiles_of(ifd: IFD, coords: Seq<(u64, u64)>) -> Seq<usize>
        decreases coords.len(),
    {
        if coords.len() == 0 {
            Seq::empty()
        } else {
            let before = Self::tiles_of(ifd, coords.drop_last());
            match Self::place(ifd, coords.last().0, coords.last().1) {
                Some((t, _)) => if before.contains(t) {
                    before
                } else {
                    before.push(t)
                },
                None => before,
            }
        }
    }

    /// The one-byte samples that reading a list of pixels at once gives,
    /// from the bytes `mmap` of the file, in the order of the pixels: `None`
    /// where a pixel has no place, a tile of the pixels cannot be loaded, or
    /// a sample lies beyond the bytes of its tile.
    pub open spec fn gathered(
        mmap: Option<Arc<Vec<u8>>>,
        order: ByteOrder,
        ifd: IFD,
        coords: Seq<(u64, u64)>,
    ) -> Option<Seq<u8>> {
        if exists|i: int| #[trigger] Self::first_misplaced(ifd, coords, i) {
            None
        } else if !ParallelReader::loadable(ifd, Self::tiles_of(ifd, coords), mmap, order) {
            None
        } else {
            Self::samples(mmap->Some_0@, order, ifd, coords)
        }
    }

    /// What the error says where reading a list of pixels at once gives no
    /// samples. The first pixel without a place gives its error; else, where
    /// the tiles of the pixels cannot all be loaded, the error is what
    /// `ParallelReader::refused` says of them; else a sample lies beyond the
    /// bytes of its tile, which is `OutOfBounds`.
    pub open spec fn refused(
        e: Error,
        mmap: Option<Arc<Vec<u8>>>,
        order: ByteOrder,
        ifd: IFD,
        coords: Seq<(u64, u64)>,
    ) -> bool {
        let tiles = Self::tiles_of(ifd, coords);
        if exists|i: int| #[trigger] Self::first_misplaced(ifd, coords, i) {
            exists|i: int|
                #[trigger] Self::first_misplaced(ifd, coords, i) && Self::misplaced(
                    e,
                    ifd,
                    coords[i].0,
                    coords[i].1,
                )
        } else if !ParallelReader::loadable(ifd, tiles, mmap, order) {
            ParallelReader::refused(e, ifd, tiles, mmap, order)
        } else {
            e is OutOfBounds
        }
    }

    /// Reading a list of pixels at once gives, pixel by pixel, what reading
    /// each pixel on its own gives.
    pub proof fn lemma_batch_equivalence(
        source: Seq<u8>,
        order: ByteOrder,
        ifd: IFD,
        coords: Seq<(u64, u64)>,
        i: int,
    )
        requires
            0 <= i < coords.len(),
            Self::samples(source, order, ifd, coords) is Some,
        ensures
            Self::sample(source, order, ifd, coords[i].0, coords[i].1, 1) == Some(
                seq![Self::samples(source, order, ifd, coords)->Some_0[i]],
            ),
    {
        let one = Self::sample(source, order, ifd, coords[i].0, coords[i].1, 1);
        assert(one is Some);
        assert(one->Some_0 =~= seq![one->Some_0[0]]);
    }
}

/// TIFF file reader with modular architecture
pub struct TiffReader<R: SeekableReader> {
    /// The loader of tiles, which holds the reader of the file.
    pub(crate) tile_reader: TileReader<R>,
    /// The byte order of the file.
    pub(crate) byte_order: ByteOrder,
    /// Whether the file is a BigTIFF.
    pub(crate) is_big_tiff: bool,
    /// The directory index under which tiles are cached.
    pub(crate) current_ifd_index: usize,
}

impl TiffReader<Cursor> {
    /// Opens a TIFF file that is held in memory, with 256 tiles of cache and
    /// the bytes at hand for the tile loader.
    pub fn from_bytes(data: Vec<u8>) -> (r: Result<Self, Error>)
        ensures
            Self::opened(r, data@, true),
    {
        Self::from_bytes_with_options(data, true, 256)
    }

    /// Opens a TIFF file that is held in memory. With `use_mmap` the tile
    /// loader takes compressed tiles from the bytes directly, else through
    /// the buffered reader.
    pub fn from_bytes_with_options(data: Vec<u8>, use_mmap: bool, cache_size: usize) -> (r: Result<
        Self,
        Error,
    >)
        ensures
            Self::opened(r, data@, true),
            r matches Ok(reader) ==> (reader.spec_tile_reader().spec_mmap() is Some <==> use_mmap)
                && reader.spec_tile_reader().spec_cache().limit() == if cache_size >= 1 {
                cache_size as nat
            } else {
                1
            },
    {
        let mmap = if use_mmap {
            Some(Arc::new(vstd::slice::slice_to_vec(data.as_slice())))
        } else {
            None
        };
        Self::from_reader(Cursor::new(data), mmap, cache_size)
    }
}

impl<R: SeekableReader> TiffReader<R> {
    /// The loader of tiles of this reader.
    pub open(crate) spec fn spec_tile_reader(&self) -> TileReader<R> {
        self.tile_reader
    }

    /// The byte order of the file.
    pub open(crate) spec fn spec_byte_order(&self) -> ByteOrder {
        self.byte_order
    }

    /// Whether the file is a BigTIFF.
    pub open(crate) spec fn spec_is_big_tiff(&self) -> bool {
        self.is_big_tiff
    }

    /// The directory index under which tiles are cached.
    pub open(crate) spec fn spec_current_ifd_index(&self) -> usize {
        self.current_ifd_index
    }

    /// Whether the file is a BigTIFF.
    pub fn is_big_tiff(&self) -> (b: bool)
        ensures
            b == self.spec_is_big_tiff(),
    {
        self.is_big_tiff
    }

    /// The byte order of the file.
    pub fn byte_order(&self) -> (order: ByteOrder)
        ensures
            order == self.spec_byte_order(),
    {
        self.byte_order
    }

    /// The loader of tiles of this reader.
    pub fn tile_reader(&self) -> (t: &TileReader<R>)
        ensures
            *t == self.spec_tile_reader(),
    {
        &self.tile_reader
    }

    /// The cache of decompressed tiles, to look into and to fill by hand.
    /// What is put into it is what later reads of those tiles give.
    pub fn cache_mut(&mut self) -> (c: &mut TileCache)
        ensures
            *c == old(self).spec_tile_reader().spec_cache(),
            final(self).spec_tile_reader().spec_cache() == *final(c),
            final(self).same_file(old(self)),
            final(self).spec_tile_reader().spec_reader()
                == old(self).spec_tile_reader().spec_reader(),
            final(self).spec_tile_reader().spec_access_pattern()
                == old(self).spec_tile_reader().spec_access_pattern(),
            final(self).spec_tile_reader().spec_prefetch_config()
                == old(self).spec_tile_reader().spec_prefetch_config(),
            final(self).spec_tile_reader().spec_pending_prefetch()
                == old(self).spec_tile_reader().spec_pending_prefetch(),
    {
        &mut self.tile_reader.cache
    }

    /// Takes the request that the last read left, if any.
    pub fn take_prefetch_request(&mut self) -> (r: Option<PrefetchRequest>)
        ensures
            r == old(self).spec_tile_reader().spec_pending_prefetch(),
            final(self).spec_tile_reader().spec_pending_prefetch() is None,
            final(self).same_file(old(self)),
            old(self).wf() ==> final(self).wf(),
            final(self).spec_tile_reader().spec_reader()
                == old(self).spec_tile_reader().spec_reader(),
            final(self).spec_tile_reader().spec_cache()
                == old(self).spec_tile_reader().spec_cache(),
            final(self).spec_tile_reader().spec_access_pattern()
                == old(self).spec_tile_reader().spec_access_pattern(),
            final(self).spec_tile_reader().spec_prefetch_config()
                == old(self).spec_tile_reader().spec_prefetch_config(),
    {
        self.tile_reader.take_prefetch_request()
    }

    /// Puts tiles that were fetched ahead into the cache, under the current
    /// directory index and in their order.
    pub fn absorb_prefetched(&mut self, results: &[PrefetchResult])
        requires
            old(self).wf(),
        ensures
            final(self).wf(),
            final(self).same_file(old(self)),
            final(self).spec_tile_reader().spec_reader()
                == old(self).spec_tile_reader().spec_reader(),
            final(self).spec_tile_reader().spec_access_pattern()
                == old(self).spec_tile_reader().spec_access_pattern(),
            final(self).spec_tile_reader().spec_prefetch_config()
                == old(self).spec_tile_reader().spec_prefetch_config(),
            final(self).spec_tile_reader().spec_pending_prefetch()
                == old(self).spec_tile_reader().spec_pending_prefetch(),
            (
                final(self).spec_tile_reader().spec_cache().entries(),
                final(self).spec_tile_reader().spec_cache().recency(),
            ) == TileReader::<R>::absorbed(
                old(self).spec_tile_reader().spec_cache().entries(),
                old(self).spec_tile_reader().spec_cache().recency(),
                old(self).spec_tile_reader().spec_cache().limit(),
                old(self).spec_current_ifd_index(),
                results@,
            ),
            forall|ifd: IFD|
                old(self).coherent(ifd) && #[trigger] TileReader::<R>::loaded_from(
                    results@,
                    old(self).source(),
                    old(self).spec_byte_order(),
                    ifd,
                ) ==> final(self).coherent(ifd),
    {
        self.tile_reader.absorb_prefetched(results)
    }

    /// The tile loader is well-formed and reads in the byte order of the
    /// file.
    pub open(crate) spec fn wf(&self) -> bool {
        &&& self.tile_reader.wf()
        &&& self.tile_reader.byte_order == self.byte_order
        &&& self.tile_reader.current_ifd_index == self.current_ifd_index
    }

    /// The reader of tag values for this file.
    pub open(crate) spec fn tag_reader(&self) -> TagReader {
        TagReader { order: self.byte_order, is_big_tiff: self.is_big_tiff }
    }

    /// The bytes of the file.
    pub open(crate) spec fn source(&self) -> Seq<u8> {
        self.tile_reader.reader.source()
    }

    /// Whether the reader of the file never fails on its own account.
    pub open(crate) spec fn reliable(&self) -> bool {
        self.tile_reader.reader.reliable()
    }

    /// What a reader keeps while it reads: the file and what its header
    /// said.
    pub open(crate) spec fn same_file(&self, other: &Self) -> bool {
        &&& self.tile_reader.same_file(&other.tile_reader)
        &&& self.byte_order == other.byte_order
        &&& self.is_big_tiff == other.is_big_tiff
        &&& self.current_ifd_index == other.current_ifd_index
    }

    /// What opening a file of the bytes `source` gives: a reader of a
    /// classic TIFF or a BigTIFF where the header says so, and else the error
    /// of the header: `InvalidByteOrder` with the word found, `InvalidMagic`
    /// with the number found, `InvalidFormat` for a BigTIFF offset size other
    /// than 8, an I/O error where the file ends within the header. A source
    /// that is not reliable may fail with an I/O error at any point.
    pub open(crate) spec fn opened(r: Result<Self, Error>, source: Seq<u8>, reliable: bool) -> bool {
        match r {
            Ok(reader) => {
                &&& reader.wf()
                &&& reader.source() == source
                &&& reader.reliable() == reliable
                &&& reader.current_ifd_index == 0
                &&& reader.tile_reader.current_ifd_index == 0
                &&& reader.tile_reader.access_pattern is None
                &&& reader.tile_reader.cache.entries() == (Map::<(usize, usize), Seq<u8>>::empty())
                &&& match Directories::header(source) {
                    Header::Classic(order) => reader.byte_order == order && !reader.is_big_tiff,
                    Header::Big(order) => reader.byte_order == order && reader.is_big_tiff,
                    _ => false,
                }
            },
            Err(e) => (e is Io && !reliable) || match Directories::header(source) {
                Header::Classic(_) => false,
                Header::Big(_) => false,
                Header::Truncated => e is Io,
                Header::BadByteOrder(word) => e == Error::InvalidByteOrder(word),
                Header::BadMagic(magic) => e == Error::InvalidMagic(magic),
                Header::BadOffsetSize(_) => e is InvalidFormat,
            },
        }
    }

    /// Opens a TIFF file through `reader`, which is read from its start.
    /// `mmap` holds the bytes of the same file where they are at hand in
    /// memory.
    pub fn from_reader(reader: R, mmap: Option<Arc<Vec<u8>>>, cache_size: usize) -> (r: Result<
        Self,
        Error,
    >)
        requires
            mmap matches Some(bytes) ==> bytes@ == reader.source(),
        ensures
            Self::opened(r, reader.source(), reader.reliable()),
            r matches Ok(opened) ==> opened.spec_tile_reader().spec_mmap() == mmap
                && opened.spec_tile_reader().spec_cache().limit() == if cache_size >= 1 {
                cache_size as nat
            } else {
                1
            },
    {
        let ghost source = reader.source();
        let mut reader = BufferedReader::new(reader);
        match reader.seek(SeekFrom::Start(0)) {
            Ok(_) => {},
            Err(e) => {
                return Err(e);
            },
        }
        proof {
            SeekFrom::lemma_tail_step(source, 0, 0);
            if source.len() >= 2 {
                SeekFrom::lemma_tail_step(source, 0, 2);
            }
            assert(SeekFrom::tail(source, 0) =~= source);
        }
        let byte_order = match ByteOrder::detect(&mut reader) {
            Ok(order) => order,
            Err(e) => {
                return Err(e);
            },
        };
        assert(reader.remaining() == SeekFrom::tail(source, 2));
        let handler = byte_order.handler();
        let magic = match handler.read_u16(&mut reader) {
            Ok(v) => v,
            Err(e) => {
                proof {
                    if reader.reliable() {
                        Directories::lemma_not_fetched(source, byte_order, 2, 2);
                    }
                }
                return Err(e);
            },
        };
        proof {
            Directories::lemma_fetched(source, byte_order, 2, 2, reader.remaining(), magic as nat);
        }
        let is_big_tiff = if magic == TIFF_MAGIC {
            false
        } else if magic == BIGTIFF_MAGIC {
            true
        } else {
            return Err(Error::InvalidMagic(magic));
        };
        if is_big_tiff {
            let offset_size = match handler.read_u16(&mut reader) {
                Ok(v) => v,
                Err(e) => {
                    proof {
                        if reader.reliable() {
                            Directories::lemma_not_fetched(source, byte_order, 4, 2);
                        }
                    }
                    return Err(e);
                },
            };
            proof {
                Directories::lemma_fetched(
                    source,
                    byte_order,
                    4,
                    2,
                    reader.remaining(),
                    offset_size as nat,
                );
            }
            if offset_size != 8 {
                return Err(
                    Error::InvalidFormat(
                        concat(
                            "Invalid BigTIFF offset size: ",
                            format_u64(offset_size as u64).as_str(),
                        ),
                    ),
                );
            }
            let _reserved = match handler.read_u16(&mut reader) {
                Ok(v) => v,
                Err(e) => {
                    proof {
                        if reader.reliable() {
                            Directories::lemma_not_fetched(source, byte_order, 6, 2);
                        }
                    }
                    return Err(e);
                },
            };
            proof {
                Directories::lemma_fetched(
                    source,
                    byte_order,
                    6,
                    2,
                    reader.remaining(),
                    _reserved as nat,
                );
            }
        }
        let tile_reader = TileReader::new(reader, byte_order, mmap, cache_size);
        Ok(Self { tile_reader, byte_order, is_big_tiff, current_ifd_index: 0 })
    }

    /// Reads a value of the width of an offset: four bytes, or eight in a
    /// BigTIFF.
    fn read_offset(&mut self) -> (r: Result<u64, Error>)
        requires
            old(self).wf(),
        ensures
            final(self).wf(),
            final(self).same_file(old(self)),
            final(self).tile_reader.cache == old(self).tile_reader.cache,
            final(self).tile_reader.access_pattern == old(self).tile_reader.access_pattern,
            final(self).tile_reader.prefetch_config == old(self).tile_reader.prefetch_config,
            final(self).tile_reader.pending_prefetch == old(self).tile_reader.pending_prefetch,
            r is Err ==> r->Err_0 is Io,
            old(self).reliable() ==> (r is Ok <==> old(self).tile_reader.reader.remaining().len()
                >= Directories::offset_width(old(self).is_big_tiff)),
            r matches Ok(v) ==> old(self).byte_order.fetched(
                Directories::offset_width(old(self).is_big_tiff),
                old(self).tile_reader.reader.remaining(),
                final(self).tile_reader.reader.remaining(),
                v as nat,
            ),
    {
        let handler = self.byte_order.handler();
        if self.is_big_tiff {
            handler.read_u64(&mut self.tile_reader.reader)
        } else {
            match handler.read_u32(&mut self.tile_reader.reader) {
                Ok(v) => Ok(v as u64),
                Err(e) => Err(e),
            }
        }
    }

    /// Reads a single IFD at the given offset, and the offset of the next
    /// one.
    #[verifier::rlimit(40)]
    fn read_ifd(&mut self, number: usize, offset: u64) -> (r: Result<(IFD, u64), Error>)
        requires
            old(self).wf(),
        ensures
            final(self).wf(),
            final(self).same_file(old(self)),
            final(self).tile_reader.cache == old(self).tile_reader.cache,
            final(self).tile_reader.access_pattern == old(self).tile_reader.access_pattern,
            final(self).tile_reader.prefetch_config == old(self).tile_reader.prefetch_config,
            final(self).tile_reader.pending_prefetch == old(self).tile_reader.pending_prefetch,
            r is Err ==> r->Err_0 is Io,
            old(self).reliable() ==> (r is Ok <==> Directories::directory_at(
                old(self).source(),
                old(self).byte_order,
                old(self).is_big_tiff,
                offset as nat,
            ) is Some),
            r matches Ok((ifd, next)) ==> {
                &&& ifd.wf()
                &&& ifd.spec_number() == number
                &&& ifd.spec_offset() == offset
                &&& Directories::directory_at(
                    old(self).source(),
                    old(self).byte_order,
                    old(self).is_big_tiff,
                    offset as nat,
                ) == Some((ifd.listed(), next))
            },
    {
        let ghost source = self.source();
        let ghost order = self.byte_order;
        let big = self.is_big_tiff;
        let ghost c = Directories::count_width(big);
        let ghost w = Directories::offset_width(big);
        let ghost esz = Directories::entry_size(big);
        let handler = self.byte_order.handler();
        match self.tile_reader.reader.seek(SeekFrom::Start(offset)) {
            Ok(_) => {},
            Err(e) => {
                return Err(e);
            },
        }
        let counted = if big {
            handler.read_u64(&mut self.tile_reader.reader)
        } else {
            match handler.read_u16(&mut self.tile_reader.reader) {
                Ok(v) => Ok(v as u64),
                Err(e) => Err(e),
            }
        };
        let entry_count: u64 = match counted {
            Ok(v) => v,
            Err(e) => {
                proof {
                    if self.reliable() {
                        Directories::lemma_not_fetched(source, order, offset as nat, c);
                    }
                }
                return Err(e);
            },
        };
        proof {
            Directories::lemma_fetched(
                source,
                order,
                offset as nat,
                c,
                self.tile_reader.reader.remaining(),
                entry_count as nat,
            );
        }
        let mut ifd = IFD::new(number, offset);
        let mut i: u64 = 0;
        let ghost start = offset as nat + c;
        let ghost pos = start;
        while i < entry_count
            invariant
                i <= entry_count,
                self.wf(),
                self.same_file(old(self)),
                self.tile_reader.cache == old(self).tile_reader.cache,
                self.tile_reader.access_pattern == old(self).tile_reader.access_pattern,
                self.tile_reader.prefetch_config == old(self).tile_reader.prefetch_config,
                self.tile_reader.pending_prefetch == old(self).tile_reader.pending_prefetch,
                source == old(self).source(),
                order == old(self).byte_order,
                big == old(self).is_big_tiff,
                handler.order() == order,
                c == Directories::count_width(big),
                w == Directories::offset_width(big),
                esz == Directories::entry_size(big),
                start == offset as nat + c,
                pos == start + i * esz,
                Directories::field(source, order, offset as nat, c) == Some(entry_count as nat),
                self.tile_reader.reader.remaining() == SeekFrom::tail(source, pos),
                ifd.wf(),
                ifd.spec_number() == number,
                ifd.spec_offset() == offset,
                Directories::entries_at(source, order, big, start, i as nat) == Some(ifd.listed()),
            decreases entry_count - i,
        {
            proof {
                ByteOrder::lemma_weights();
                if self.reliable() && Directories::entries_at(
                    source,
                    order,
                    big,
                    start,
                    entry_count as nat,
                ) is Some {
                    Directories::lemma_entries_prefix(
                        source,
                        order,
                        big,
                        start,
                        entry_count as nat,
                        i as nat,
                    );
                }
            }
            let tag = match handler.read_u16(&mut self.tile_reader.reader) {
                Ok(v) => v,
                Err(e) => {
                    proof {
                        if self.reliable() {
                            Directories::lemma_not_fetched(source, order, pos, 2);
                        }
                    }
                    return Err(e);
                },
            };
            proof {
                Directories::lemma_fetched(
                    source,
                    order,
                    pos,
                    2,
                    self.tile_reader.reader.remaining(),
                    tag as nat,
                );
            }
            let field_type = match handler.read_u16(&mut self.tile_reader.reader) {
                Ok(v) => v,
                Err(e) => {
                    proof {
                        if self.reliable() {
                            Directories::lemma_not_fetched(source, order, pos + 2, 2);
                        }
                    }
                    return Err(e);
                },
            };
            proof {
                Directories::lemma_fetched(
                    source,
                    order,
                    pos + 2,
                    2,
                    self.tile_reader.reader.remaining(),
                    field_type as nat,
                );
            }
            let count = match self.read_offset() {
                Ok(v) => v,
                Err(e) => {
                    proof {
                        if self.reliable() {
                            Directories::lemma_not_fetched(source, order, pos + 4, w);
                        }
                    }
                    return Err(e);
                },
            };
            proof {
                Directories::lemma_fetched(
                    source,
                    order,
                    pos + 4,
                    w,
                    self.tile_reader.reader.remaining(),
                    count as nat,
                );
            }
            let value_offset = match self.read_offset() {
                Ok(v) => v,
                Err(e) => {
                    proof {
                        if self.reliable() {
                            Directories::lemma_not_fetched(source, order, pos + 4 + w, w);
                        }
                    }
                    return Err(e);
                },
            };
            proof {
                Directories::lemma_fetched(
                    source,
                    order,
                    pos + 4 + w,
                    w,
                    self.tile_reader.reader.remaining(),
                    value_offset as nat,
                );
            }
            let entry = IFDEntry::new(tag, field_type, count, value_offset);
            ifd.add_entry(entry);
            i = i + 1;
            proof {
                assert(Directories::entry_at(source, order, big, pos) == Some(entry));
                assert(i * esz == (i - 1) * esz + esz) by (nonlinear_arith);
                pos = pos + esz;
            }
        }
        let next = match self.read_offset() {
            Ok(v) => v,
            Err(e) => {
                proof {
                    if self.reliable() {
                        Directories::lemma_not_fetched(source, order, pos, w);
                    }
                }
                return Err(e);
            },
        };
        proof {
            Directories::lemma_fetched(
                source,
                order,
                pos,
                w,
                self.tile_reader.reader.remaining(),
                next as nat,
            );
        }
        Ok((ifd, next))
    }

    /// Reads the TIFF file and returns the structure: its directories in the
    /// order of the chain, numbered from zero. A chain of more than a
    /// thousand directories is `InvalidFormat`; a file that ends within a
    /// directory gives an I/O error.
    pub fn read(&mut self) -> (r: Result<Tiff, Error>)
        requires
            old(self).wf(),
        ensures
            final(self).wf(),
            final(self).same_file(old(self)),
            final(self).spec_tile_reader().spec_cache()
                == old(self).spec_tile_reader().spec_cache(),
            final(self).spec_tile_reader().spec_access_pattern()
                == old(self).spec_tile_reader().spec_access_pattern(),
            final(self).spec_tile_reader().spec_prefetch_config()
                == old(self).spec_tile_reader().spec_prefetch_config(),
            final(self).spec_tile_reader().spec_pending_prefetch()
                == old(self).spec_tile_reader().spec_pending_prefetch(),
            r matches Ok(tiff) ==> {
                &&& tiff.wf()
                &&& tiff.is_big_tiff == old(self).spec_is_big_tiff()
                &&& Directories::all(
                    old(self).source(),
                    old(self).spec_byte_order(),
                    old(self).spec_is_big_tiff(),
                ) is Ok
                &&& Directories::listed(
                    tiff.ifds@,
                    Directories::all(
                        old(self).source(),
                        old(self).spec_byte_order(),
                        old(self).spec_is_big_tiff(),
                    )->Ok_0,
                    0,
                )
            },
            r matches Err(e) ==> e is Io || (e is InvalidFormat && Directories::all(
                old(self).source(),
                old(self).spec_byte_order(),
                old(self).spec_is_big_tiff(),
            ) == Err::<Seq<(u64, Seq<IFDEntry>)>, ChainFailure>(ChainFailure::TooMany)),
            old(self).reliable() ==> match Directories::all(
                old(self).source(),
                old(self).spec_byte_order(),
                old(self).spec_is_big_tiff(),
            ) {
                Ok(_) => r is Ok,
                Err(ChainFailure::Truncated) => r is Err && r->Err_0 is Io,
                Err(ChainFailure::TooMany) => r is Err && r->Err_0 is InvalidFormat,
            },
    {
        let ghost source = self.source();
        let ghost order = self.byte_order;
        let big = self.is_big_tiff;
        let ghost w = Directories::offset_width(big);
        let mut tiff = Tiff::new(big);
        let first_at: u64 = if big {
            8
        } else {
            4
        };
        match self.tile_reader.reader.seek(SeekFrom::Start(first_at)) {
            Ok(_) => {},
            Err(e) => {
                return Err(e);
            },
        }
        let mut next_ifd_offset = match self.read_offset() {
            Ok(v) => v,
            Err(e) => {
                proof {
                    if self.reliable() {
                        Directories::lemma_not_fetched(source, order, first_at as nat, w);
                    }
                }
                return Err(e);
            },
        };
        proof {
            Directories::lemma_fetched(
                source,
                order,
                first_at as nat,
                w,
                self.tile_reader.reader.remaining(),
                next_ifd_offset as nat,
            );
        }
        let mut ifd_number: usize = 0;
        let ghost done: Seq<(u64, Seq<IFDEntry>)> = Seq::empty();
        proof {
            match Directories::chain(source, order, big, next_ifd_offset, 0) {
                Ok(more) => {
                    assert(done + more =~= more);
                },
                Err(_) => {},
            }
        }
        while next_ifd_offset != 0
            invariant
                self.wf(),
                self.same_file(old(self)),
                self.tile_reader.cache == old(self).tile_reader.cache,
                self.tile_reader.access_pattern == old(self).tile_reader.access_pattern,
                self.tile_reader.prefetch_config == old(self).tile_reader.prefetch_config,
                self.tile_reader.pending_prefetch == old(self).tile_reader.pending_prefetch,
                source == old(self).source(),
                order == old(self).byte_order,
                big == old(self).is_big_tiff,
                tiff.wf(),
                tiff.is_big_tiff == big,
                ifd_number == done.len(),
                ifd_number <= Directories::limit(),
                Directories::listed(tiff.ifds@, done, 0),
                Directories::all(source, order, big) == Directories::continued(
                    done,
                    Directories::chain(source, order, big, next_ifd_offset, ifd_number as nat),
                ),
            decreases Directories::limit() - ifd_number,
        {
            if ifd_number >= 1000 {
                return Err(Error::InvalidFormat("Too many IFDs".to_string()));
            }
            let (ifd, following) = match self.read_ifd(ifd_number, next_ifd_offset) {
                Ok(pair) => pair,
                Err(e) => {
                    return Err(e);
                },
            };
            proof {
                let here = (next_ifd_offset, ifd.listed());
                let longer = done.push(here);
                match Directories::chain(source, order, big, following, (ifd_number + 1) as nat) {
                    Ok(more) => {
                        assert(done + (seq![here] + more) =~= longer + more);
                    },
                    Err(_) => {},
                }
                done = longer;
            }
            let ghost before = tiff.ifds@;
            tiff.add_ifd(ifd);
            proof {
                assert forall|k: int| #![trigger tiff.ifds@[k]] 0 <= k < tiff.ifds@.len() implies {
                    &&& tiff.ifds@[k].wf()
                    &&& tiff.ifds@[k].spec_number() == 0 + k
                    &&& tiff.ifds@[k].spec_offset() == done[k].0
                    &&& tiff.ifds@[k].listed() == done[k].1
                } by {
                    if k < before.len() {
                        assert(tiff.ifds@[k] == before[k]);
                    }
                }
            }
            ifd_number = ifd_number + 1;
            next_ifd_offset = following;
        }
        proof {
            assert(done + Seq::<(u64, Seq<IFDEntry>)>::empty() =~= done);
        }
        Ok(tiff)
    }

    /// Every tile that the cache holds is the tile of its index in `ifd`.
    pub open(crate) spec fn coherent(&self, ifd: IFD) -> bool {
        self.tile_reader.coherent(ifd)
    }

    /// The `n` bytes that a read of the sample of pixel `(x, y)` gives as
    /// the reader stands: those of the cached tile, where the cache holds the
    /// tile, else those of the file.
    pub open(crate) spec fn sample(&self, ifd: IFD, x: u64, y: u64, n: nat) -> Option<Seq<u8>> {
        match Pixels::place(ifd, x, y) {
            Some((t, p)) => Pixels::cut(self.tile_reader.served(ifd, t), p, n),
            None => None,
        }
    }

    /// With a coherent cache a read gives what the file says.
    pub proof fn lemma_sample_of_file(&self, ifd: IFD, x: u64, y: u64, n: nat)
        requires
            self.coherent(ifd),
        ensures
            self.sample(ifd, x, y, n) == Pixels::sample(
                self.source(),
                self.spec_tile_reader().spec_byte_order(),
                ifd,
                x,
                y,
                n,
            ),
    {
    }

    /// Enable prefetching for improved sequential access performance: the
    /// tracker is set up for rows of `ceil(W / Tw)` tiles, where the image
    /// width counts as one tile width when it is missing. Nothing happens
    /// without tile dimensions, with a tile width of zero, or where the number
    /// of tiles in a row does not fit `usize`.
    pub fn enable_prefetch(&mut self, ifd: &IFD)
        requires
            ifd.wf(),
        ensures
            final(self).same_file(old(self)),
            final(self).spec_tile_reader().spec_reader()
                == old(self).spec_tile_reader().spec_reader(),
            final(self).spec_tile_reader().spec_cache()
                == old(self).spec_tile_reader().spec_cache(),
            final(self).spec_tile_reader().spec_prefetch_config()
                == old(self).spec_tile_reader().spec_prefetch_config(),
            final(self).spec_tile_reader().spec_pending_prefetch()
                == old(self).spec_tile_reader().spec_pending_prefetch(),
            match ifd.spec_tile_dimensions() {
                Some(tile) if tile.width > 0 && old(self).spec_tile_reader().spec_prefetch_config().enabled
                    && PixelReader::tiles_across(
                    match ifd.spec_dimensions() {
                        Some(d) => d.width as int,
                        None => tile.width as int,
                    },
                    tile.width as int,
                ) <= usize::MAX => final(self).spec_tile_reader().spec_access_pattern() matches Some(pattern)
                    && pattern.history() == Seq::<usize>::empty() && pattern.row_length()
                    == PixelReader::tiles_across(
                    match ifd.spec_dimensions() {
                        Some(d) => d.width as int,
                        None => tile.width as int,
                    },
                    tile.width as int,
                ),
                _ => final(self).spec_tile_reader().spec_access_pattern()
                    == old(self).spec_tile_reader().spec_access_pattern(),
            },
    {
        if let Some(tile_dims) = ifd.tile_dimensions() {
            if tile_dims.width == 0 {
                return ;
            }
            let width: u64 = match ifd.dimensions() {
                Some(d) => d.width,
                None => tile_dims.width,
            };
            let whole: u64 = width / tile_dims.width;
            let tiles_per_row: u128 = if width % tile_dims.width == 0 {
                whole as u128
            } else {
                whole as u128 + 1
            };
            if tiles_per_row <= usize::MAX as u128 {
                self.tile_reader.init_prefetch(tiles_per_row as usize);
            }
        }
    }

    /// Reads floating-point tag values as bit patterns: those of the slot
    /// for an inline entry, which leaves the reader alone, else those at the
    /// offset in the slot.
    pub fn read_tag_double_bits(&mut self, entry: &IFDEntry) -> (r: Result<Vec<FloatBits>, Error>)
        requires
            old(self).wf(),
        ensures
            final(self).wf(),
            final(self).same_file(old(self)),
            final(self).spec_tile_reader().spec_cache()
                == old(self).spec_tile_reader().spec_cache(),
            entry.spec_is_inline(old(self).spec_is_big_tiff())
                ==> (r is Ok <==> old(self).tag_reader().floats(*entry, old(self).source()) is Some),
            entry.spec_is_inline(old(self).spec_is_big_tiff())
                ==> final(self).spec_tile_reader().spec_reader().remaining()
                    == old(self).spec_tile_reader().spec_reader().remaining(),
            entry.spec_is_inline(old(self).spec_is_big_tiff())
                ==> final(self).spec_tile_reader().spec_reader().seek_origin()
                    == old(self).spec_tile_reader().spec_reader().seek_origin(),
            r is Ok ==> final(self).spec_tile_reader().spec_reader().remaining() == old(self).tag_reader().left_after(
                *entry,
                TagReader::float_width(*entry),
                old(self).source(),
                old(self).spec_tile_reader().spec_reader().remaining(),
            ),
            r matches Err(e) ==> if entry.field_type
                == crate::formats::tiff::tags::field_types::DOUBLE || entry.field_type
                == crate::formats::tiff::tags::field_types::FLOAT {
                e is Io
            } else {
                e is InvalidFormat && entry.count > 0
            },
            old(self).reliable() ==> (r is Ok <==> old(self).tag_reader().float_bits(
                *entry,
                TagReader::positioned(*entry, old(self).source()),
            ) is Some),
            r matches Ok(v) ==> old(self).tag_reader().float_bits(
                *entry,
                TagReader::positioned(*entry, old(self).source()),
            ) == Some(v@),
    {
        let tag_reader = TagReader::new(self.byte_order, self.is_big_tiff);
        tag_reader.read_double_bits(&mut self.tile_reader.reader, entry)
    }

    /// Reads a tile from the file with caching
    pub fn read_tile(&mut self, ifd: &IFD, tile_index: usize) -> (r: Result<Vec<u8>, Error>)
        requires
            old(self).wf(),
            ifd.wf(),
        ensures
            final(self).wf(),
            final(self).same_file(old(self)),
            final(self).spec_tile_reader().spec_cache().limit()
                == old(self).spec_tile_reader().spec_cache().limit(),
            r matches Ok(data)
                ==> old(self).spec_tile_reader().served(*ifd, tile_index) == Some(data@),
            old(self).reliable() ==> (r is Ok <==> old(self).spec_tile_reader().served(
                *ifd,
                tile_index,
            ) is Some),
            r is Err ==> old(self).spec_tile_reader().served(*ifd, tile_index) == Tiles::tile(
                old(self).source(),
                old(self).spec_byte_order(),
                *ifd,
                tile_index as nat,
            ),
            r matches Err(e)
                ==> (e is Io && !old(self).reliable()) || old(self).spec_tile_reader().refused(e, *ifd, tile_index as nat),
            old(self).coherent(*ifd) ==> final(self).coherent(*ifd),
    {
        self.tile_reader.set_current_ifd(self.current_ifd_index);
        self.tile_reader.read_tile(ifd, tile_index)
    }

    /// Reads tag values as u16 array
    pub fn read_tag_u16s(&mut self, entry: &IFDEntry) -> (r: Result<Vec<u16>, Error>)
        requires
            old(self).wf(),
        ensures
            final(self).wf(),
            final(self).same_file(old(self)),
            final(self).spec_tile_reader().spec_cache()
                == old(self).spec_tile_reader().spec_cache(),
            entry.spec_is_inline(old(self).spec_is_big_tiff()) ==> r is Ok,
            entry.spec_is_inline(old(self).spec_is_big_tiff())
                ==> final(self).spec_tile_reader().spec_reader().seek_origin()
                    == old(self).spec_tile_reader().spec_reader().seek_origin(),
            r is Ok ==> final(self).spec_tile_reader().spec_reader().remaining() == old(self).tag_reader().left_after(
                *entry,
                2,
                old(self).source(),
                old(self).spec_tile_reader().spec_reader().remaining(),
            ),
            r is Err ==> r->Err_0 is Io,
            old(self).reliable() ==> (r is Ok <==> old(self).tag_reader().values(
                *entry,
                2,
                TagReader::positioned(*entry, old(self).source()),
            ) is Some),
            r is Ok ==> old(self).tag_reader().values(
                *entry,
                2,
                TagReader::positioned(*entry, old(self).source()),
            ) is Some,
            r matches Ok(v) ==> v@.len() == entry.count,
            r matches Ok(v) ==> forall|i: int|
                #![trigger v@[i]]
                0 <= i < v@.len() ==> v@[i] == old(self).tag_reader().element(
                        *entry,
                        2,
                        TagReader::positioned(*entry, old(self).source()),
                        i as nat,
                    ),
    {
        let tag_reader = TagReader::new(self.byte_order, self.is_big_tiff);
        tag_reader.read_u16s(&mut self.tile_reader.reader, entry)
    }

    /// Reads tag values as i16 array
    pub fn read_tag_i16s(&mut self, entry: &IFDEntry) -> (r: Result<Vec<i16>, Error>)
        requires
            old(self).wf(),
        ensures
            final(self).wf(),
            final(self).same_file(old(self)),
            final(self).spec_tile_reader().spec_cache()
                == old(self).spec_tile_reader().spec_cache(),
            entry.spec_is_inline(old(self).spec_is_big_tiff()) ==> r is Ok,
            entry.spec_is_inline(old(self).spec_is_big_tiff())
                ==> final(self).spec_tile_reader().spec_reader().seek_origin()
                    == old(self).spec_tile_reader().spec_reader().seek_origin(),
            r is Ok ==> final(self).spec_tile_reader().spec_reader().remaining() == old(self).tag_reader().left_after(
                *entry,
                2,
                old(self).source(),
                old(self).spec_tile_reader().spec_reader().remaining(),
            ),
            r is Err ==> r->Err_0 is Io,
            old(self).reliable() ==> (r is Ok <==> old(self).tag_reader().values(
                *entry,
                2,
                TagReader::positioned(*entry, old(self).source()),
            ) is Some),
            r is Ok ==> old(self).tag_reader().values(
                *entry,
                2,
                TagReader::positioned(*entry, old(self).source()),
            ) is Some,
            r matches Ok(v) ==> v@.len() == entry.count,
            r matches Ok(v) ==> forall|i: int|
                #![trigger v@[i]]
                0 <= i < v@.len() ==> ByteOrder::pattern(v@[i] as int, 2) == old(self).tag_reader().element(
                        *entry,
                        2,
                        TagReader::positioned(*entry, old(self).source()),
                        i as nat,
                    ),
    {
        let tag_reader = TagReader::new(self.byte_order, self.is_big_tiff);
        tag_reader.read_i16s(&mut self.tile_reader.reader, entry)
    }

    /// Reads tag values as u32 array
    pub fn read_tag_u32s(&mut self, entry: &IFDEntry) -> (r: Result<Vec<u32>, Error>)
        requires
            old(self).wf(),
        ensures
            final(self).wf(),
            final(self).same_file(old(self)),
            final(self).spec_tile_reader().spec_cache()
                == old(self).spec_tile_reader().spec_cache(),
            entry.spec_is_inline(old(self).spec_is_big_tiff()) ==> r is Ok,
            entry.spec_is_inline(old(self).spec_is_big_tiff())
                ==> final(self).spec_tile_reader().spec_reader().seek_origin()
                    == old(self).spec_tile_reader().spec_reader().seek_origin(),
            r is Ok ==> final(self).spec_tile_reader().spec_reader().remaining() == old(self).tag_reader().left_after(
                *entry,
                4,
                old(self).source(),
                old(self).spec_tile_reader().spec_reader().remaining(),
            ),
            r is Err ==> r->Err_0 is Io,
            old(self).reliable() ==> (r is Ok <==> old(self).tag_reader().values(
                *entry,
                4,
                TagReader::positioned(*entry, old(self).source()),
            ) is Some),
            r is Ok ==> old(self).tag_reader().values(
                *entry,
                4,
                TagReader::positioned(*entry, old(self).source()),
            ) is Some,
            r matches Ok(v) ==> v@.len() == entry.count,
            r matches Ok(v) ==> forall|i: int|
                #![trigger v@[i]]
                0 <= i < v@.len() ==> v@[i] == old(self).tag_reader().element(
                        *entry,
                        4,
                        TagReader::positioned(*entry, old(self).source()),
                        i as nat,
                    ),
    {
        let tag_reader = TagReader::new(self.byte_order, self.is_big_tiff);
        tag_reader.read_u32s(&mut self.tile_reader.reader, entry)
    }

    /// Reads tag values as i32 array
    pub fn read_tag_i32s(&mut self, entry: &IFDEntry) -> (r: Result<Vec<i32>, Error>)
        requires
            old(self).wf(),
        ensures
            final(self).wf(),
            final(self).same_file(old(self)),
            final(self).spec_tile_reader().spec_cache()
                == old(self).spec_tile_reader().spec_cache(),
            entry.spec_is_inline(old(self).spec_is_big_tiff()) ==> r is Ok,
            entry.spec_is_inline(old(self).spec_is_big_tiff())
                ==> final(self).spec_tile_reader().spec_reader().seek_origin()
                    == old(self).spec_tile_reader().spec_reader().seek_origin(),
            r is Ok ==> final(self).spec_tile_reader().spec_reader().remaining() == old(self).tag_reader().left_after(
                *entry,
                4,
                old(self).source(),
                old(self).spec_tile_reader().spec_reader().remaining(),
            ),
            r is Err ==> r->Err_0 is Io,
            old(self).reliable() ==> (r is Ok <==> old(self).tag_reader().values(
                *entry,
                4,
                TagReader::positioned(*entry, old(self).source()),
            ) is Some),
            r is Ok ==> old(self).tag_reader().values(
                *entry,
                4,
                TagReader::positioned(*entry, old(self).source()),
            ) is Some,
            r matches Ok(v) ==> v@.len() == entry.count,
            r matches Ok(v) ==> forall|i: int|
                #![trigger v@[i]]
                0 <= i < v@.len() ==> ByteOrder::pattern(v@[i] as int, 4) == old(self).tag_reader().element(
                        *entry,
                        4,
                        TagReader::positioned(*entry, old(self).source()),
                        i as nat,
                    ),
    {
        let tag_reader = TagReader::new(self.byte_order, self.is_big_tiff);
        tag_reader.read_i32s(&mut self.tile_reader.reader, entry)
    }

    /// Reads tag values as u64 array
    pub fn read_tag_u64s(&mut self, entry: &IFDEntry) -> (r: Result<Vec<u64>, Error>)
        requires
            old(self).wf(),
        ensures
            final(self).wf(),
            final(self).same_file(old(self)),
            final(self).spec_tile_reader().spec_cache()
                == old(self).spec_tile_reader().spec_cache(),
            entry.spec_is_inline(old(self).spec_is_big_tiff()) ==> r is Ok,
            entry.spec_is_inline(old(self).spec_is_big_tiff())
                ==> final(self).spec_tile_reader().spec_reader().seek_origin()
                    == old(self).spec_tile_reader().spec_reader().seek_origin(),
            r is Ok ==> final(self).spec_tile_reader().spec_reader().remaining() == old(self).tag_reader().left_after(
                *entry,
                8,
                old(self).source(),
                old(self).spec_tile_reader().spec_reader().remaining(),
            ),
            r is Err ==> r->Err_0 is Io,
            old(self).reliable() ==> (r is Ok <==> old(self).tag_reader().values(
                *entry,
                8,
                TagReader::positioned(*entry, old(self).source()),
            ) is Some),
            r is Ok ==> old(self).tag_reader().values(
                *entry,
                8,
                TagReader::positioned(*entry, old(self).source()),
            ) is Some,
            r matches Ok(v) ==> v@.len() == entry.count,
            r matches Ok(v) ==> forall|i: int|
                #![trigger v@[i]]
                0 <= i < v@.len() ==> v@[i] == old(self).tag_reader().element(
                        *entry,
                        8,
                        TagReader::positioned(*entry, old(self).source()),
                        i as nat,
                    ),
    {
        let tag_reader = TagReader::new(self.byte_order, self.is_big_tiff);
        tag_reader.read_u64s(&mut self.tile_reader.reader, entry)
    }

    /// Reads tag values as i64 array
    pub fn read_tag_i64s(&mut self, entry: &IFDEntry) -> (r: Result<Vec<i64>, Error>)
        requires
            old(self).wf(),
        ensures
            final(self).wf(),
            final(self).same_file(old(self)),
            final(self).spec_tile_reader().spec_cache()
                == old(self).spec_tile_reader().spec_cache(),
            entry.spec_is_inline(old(self).spec_is_big_tiff()) ==> r is Ok,
            entry.spec_is_inline(old(self).spec_is_big_tiff())
                ==> final(self).spec_tile_reader().spec_reader().seek_origin()
                    == old(self).spec_tile_reader().spec_reader().seek_origin(),
            r is Ok ==> final(self).spec_tile_reader().spec_reader().remaining() == old(self).tag_reader().left_after(
                *entry,
                8,
                old(self).source(),
                old(self).spec_tile_reader().spec_reader().remaining(),
            ),
            r is Err ==> r->Err_0 is Io,
            old(self).reliable() ==> (r is Ok <==> old(self).tag_reader().values(
                *entry,
                8,
                TagReader::positioned(*entry, old(self).source()),
            ) is Some),
            r is Ok ==> old(self).tag_reader().values(
                *entry,
                8,
                TagReader::positioned(*entry, old(self).source()),
            ) is Some,
            r matches Ok(v) ==> v@.len() == entry.count,
            r matches Ok(v) ==> forall|i: int|
                #![trigger v@[i]]
                0 <= i < v@.len() ==> ByteOrder::pattern(v@[i] as int, 8) == old(self).tag_reader().element(
                        *entry,
                        8,
                        TagReader::positioned(*entry, old(self).source()),
                        i as nat,
                    ),
    {
        let tag_reader = TagReader::new(self.byte_order, self.is_big_tiff);
        tag_reader.read_i64s(&mut self.tile_reader.reader, entry)
    }

    /// Reads ASCII string from tag
    pub fn read_tag_ascii(&mut self, entry: &IFDEntry) -> (r: Result<String, Error>)
        requires
            old(self).wf(),
        ensures
            final(self).wf(),
            final(self).same_file(old(self)),
            final(self).spec_tile_reader().spec_cache()
                == old(self).spec_tile_reader().spec_cache(),
            entry.spec_is_inline(old(self).spec_is_big_tiff()) ==> r is Ok,
            entry.spec_is_inline(old(self).spec_is_big_tiff())
                ==> final(self).spec_tile_reader().spec_reader().seek_origin()
                    == old(self).spec_tile_reader().spec_reader().seek_origin(),
            r is Ok ==> final(self).spec_tile_reader().spec_reader().remaining() == old(self).tag_reader().left_after(
                *entry,
                1,
                old(self).source(),
                old(self).spec_tile_reader().spec_reader().remaining(),
            ),
            r matches Err(e) ==> e is Io || (e is InvalidFormat && entry.count > usize::MAX),
            old(self).reliable() ==> (r is Ok <==> old(self).tag_reader().ascii_readable(
                *entry,
                old(self).source(),
            )),
            r matches Ok(text) ==> old(self).tag_reader().ascii_bytes(*entry, old(self).source())
                is Some,
            r matches Ok(text) ==> text@ == crate::formats::tiff::reader::tags::utf8_lossy(
                TagReader::trimmed(
                    old(self).tag_reader().ascii_bytes(*entry, old(self).source())->Some_0,
                ),
            ),
            r matches Ok(text) ==> (TagReader::is_ascii(
                TagReader::trimmed(
                    old(self).tag_reader().ascii_bytes(*entry, old(self).source())->Some_0,
                ),
            ) ==> text@ == TagReader::ascii_text(
                TagReader::trimmed(
                    old(self).tag_reader().ascii_bytes(*entry, old(self).source())->Some_0,
                ),
            )),
    {
        let tag_reader = TagReader::new(self.byte_order, self.is_big_tiff);
        tag_reader.read_ascii(&mut self.tile_reader.reader, entry)
    }

    /// Helper: Reads pixel data and indices for any type: the bytes of the
    /// tile that holds the pixel, and the place of the pixel within it.
    fn read_pixel_data(&mut self, ifd: &IFD, x: u64, y: u64) -> (r: Result<(Vec<u8>, usize), Error>)
        requires
            old(self).wf(),
            ifd.wf(),
        ensures
            final(self).wf(),
            final(self).same_file(old(self)),
            final(self).tile_reader.cache.limit() == old(self).tile_reader.cache.limit(),
            old(self).coherent(*ifd) ==> final(self).coherent(*ifd),
            r matches Ok((data, p)) ==> Pixels::place(*ifd, x, y) is Some,
            r matches Ok((data, p)) ==> Pixels::place(*ifd, x, y)->Some_0.1 == p,
            r matches Ok((data, p)) ==> old(self).tile_reader.served(
                *ifd,
                Pixels::place(*ifd, x, y)->Some_0.0,
            ) == Some(data@),
            old(self).reliable()
                ==> (r is Ok <==> Pixels::place(*ifd, x, y) is Some && old(self).tile_reader.served(*ifd, Pixels::place(*ifd, x, y)->Some_0.0) is Some),
            r matches Err(e) ==> (e is Io && !old(self).reliable()) || old(self).refused(
                e,
                *ifd,
                x,
                y,
            ),
    {
        match PixelReader::validate_tiled_access(ifd) {
            Ok(()) => {},
            Err(e) => {
                return Err(e);
            },
        }
        match PixelReader::validate_pixel_bounds(ifd, x, y) {
            Ok(()) => {},
            Err(e) => {
                return Err(e);
            },
        }
        let tile_index = match PixelReader::calculate_tile_index(ifd, x, y) {
            Ok(t) => t,
            Err(e) => {
                return Err(e);
            },
        };
        let tile_data = match self.read_tile(ifd, tile_index) {
            Ok(d) => d,
            Err(e) => {
                return Err(e);
            },
        };
        let pixel_index = match PixelReader::calculate_pixel_index(ifd, x, y) {
            Ok(p) => p,
            Err(e) => {
                return Err(e);
            },
        };
        Ok((tile_data, pixel_index))
    }

    /// What the error of a pixel read says, for a reader that does not fail
    /// on its own account: a directory that is not tiled is `Unsupported`,
    /// one without dimensions `InvalidFormat`, a pixel outside the image
    /// `OutOfBounds`, a directory without tile dimensions or with a tile size
    /// of zero `InvalidFormat`, a tile index beyond `usize` `OutOfBounds`; for
    /// a tile that cannot be loaded see `TileReader::refused`; a sample that
    /// lies beyond the bytes of its tile is `OutOfBounds`.
    pub open(crate) spec fn refused(&self, e: Error, ifd: IFD, x: u64, y: u64) -> bool {
        if !ifd.spec_is_tiled() {
            e is Unsupported
        } else {
            match (ifd.spec_dimensions(), ifd.spec_tile_dimensions()) {
                (None, _) => e is InvalidFormat,
                (Some(dims), tile) => if x >= dims.width || y >= dims.height {
                    e is OutOfBounds
                } else if tile is None || tile->Some_0.width == 0 || tile->Some_0.height == 0 {
                    e is InvalidFormat
                } else if PixelReader::tile_index_of(dims, tile->Some_0, x as int, y as int)
                    > usize::MAX {
                    e is OutOfBounds
                } else if self.tile_reader.served(
                    ifd,
                    PixelReader::tile_index_of(dims, tile->Some_0, x as int, y as int) as usize,
                ) is None {
                    self.tile_reader.refused(
                        e,
                        ifd,
                        PixelReader::tile_index_of(dims, tile->Some_0, x as int, y as int) as nat,
                    )
                } else {
                    e is OutOfBounds
                },
            }
        }
    }

    /// Reads a pixel value at specific pixel coordinates (u8)
    pub fn read_pixel_value(&mut self, ifd: &IFD, x: u64, y: u64) -> (r: Result<u8, Error>)
        requires
            old(self).wf(),
            ifd.wf(),
        ensures
            final(self).wf(),
            final(self).same_file(old(self)),
            final(self).spec_tile_reader().spec_cache().limit()
                == old(self).spec_tile_reader().spec_cache().limit(),
            old(self).coherent(*ifd) ==> final(self).coherent(*ifd),
            r matches Ok(v) ==> old(self).sample(*ifd, x, y, 1) == Some(seq![v]),
            old(self).reliable() ==> (r is Ok <==> old(self).sample(*ifd, x, y, 1) is Some),
            r matches Err(e) ==> (e is Io && !old(self).reliable()) || old(self).refused(
                e,
                *ifd,
                x,
                y,
            ),
    {
        let (tile_data, pixel_index) = match self.read_pixel_data(ifd, x, y) {
            Ok(pair) => pair,
            Err(e) => {
                return Err(e);
            },
        };
        match PixelReader::read_u8_from_tile(tile_data.as_slice(), pixel_index) {
            Ok(v) => {
                assert(tile_data@.subrange(pixel_index * 1, pixel_index * 1 + 1) =~= seq![v]);
                Ok(v)
            },
            Err(e) => Err(e),
        }
    }

    /// Reads a u16 pixel value at specific coordinates: the two bytes of the
    /// sample, least significant first.
    pub fn read_pixel_u16(&mut self, ifd: &IFD, x: u64, y: u64) -> (r: Result<u16, Error>)
        requires
            old(self).wf(),
            ifd.wf(),
        ensures
            final(self).wf(),
            final(self).same_file(old(self)),
            final(self).spec_tile_reader().spec_cache().limit()
                == old(self).spec_tile_reader().spec_cache().limit(),
            old(self).coherent(*ifd) ==> final(self).coherent(*ifd),
            r matches Ok(v) ==> old(self).sample(*ifd, x, y, 2) is Some,
            r matches Ok(v) ==> v == ByteOrder::LittleEndian.value(
                old(self).sample(*ifd, x, y, 2)->Some_0,
            ),
            old(self).reliable() ==> (r is Ok <==> old(self).sample(*ifd, x, y, 2) is Some),
            r matches Err(e) ==> (e is Io && !old(self).reliable()) || old(self).refused(
                e,
                *ifd,
                x,
                y,
            ),
    {
        let (tile_data, pixel_index) = match self.read_pixel_data(ifd, x, y) {
            Ok(pair) => pair,
            Err(e) => {
                return Err(e);
            },
        };
        PixelReader::read_u16_from_tile(tile_data.as_slice(), pixel_index)
    }

    /// Reads an i16 pixel value at specific coordinates
    pub fn read_pixel_i16(&mut self, ifd: &IFD, x: u64, y: u64) -> (r: Result<i16, Error>)
        requires
            old(self).wf(),
            ifd.wf(),
        ensures
            final(self).wf(),
            final(self).same_file(old(self)),
            final(self).spec_tile_reader().spec_cache().limit()
                == old(self).spec_tile_reader().spec_cache().limit(),
            old(self).coherent(*ifd) ==> final(self).coherent(*ifd),
            r matches Ok(v) ==> old(self).sample(*ifd, x, y, 2) is Some,
            r matches Ok(v) ==> ByteOrder::pattern(v as int, 2) == ByteOrder::LittleEndian.value(
                old(self).sample(*ifd, x, y, 2)->Some_0,
            ),
            old(self).reliable() ==> (r is Ok <==> old(self).sample(*ifd, x, y, 2) is Some),
            r matches Err(e) ==> (e is Io && !old(self).reliable()) || old(self).refused(
                e,
                *ifd,
                x,
                y,
            ),
    {
        let (tile_data, pixel_index) = match self.read_pixel_data(ifd, x, y) {
            Ok(pair) => pair,
            Err(e) => {
                return Err(e);
            },
        };
        PixelReader::read_i16_from_tile(tile_data.as_slice(), pixel_index)
    }

    /// Reads a u32 pixel value at specific coordinates: the four bytes of
    /// the sample, least significant first. This is also the bit pattern of
    /// a single-precision sample.
    pub fn read_pixel_u32(&mut self, ifd: &IFD, x: u64, y: u64) -> (r: Result<u32, Error>)
        requires
            old(self).wf(),
            ifd.wf(),
        ensures
            final(self).wf(),
            final(self).same_file(old(self)),
            final(self).spec_tile_reader().spec_cache().limit()
                == old(self).spec_tile_reader().spec_cache().limit(),
            old(self).coherent(*ifd) ==> final(self).coherent(*ifd),
            r matches Ok(v) ==> old(self).sample(*ifd, x, y, 4) is Some,
            r matches Ok(v) ==> v == ByteOrder::LittleEndian.value(
                old(self).sample(*ifd, x, y, 4)->Some_0,
            ),
            old(self).reliable() ==> (r is Ok <==> old(self).sample(*ifd, x, y, 4) is Some),
            r matches Err(e) ==> (e is Io && !old(self).reliable()) || old(self).refused(
                e,
                *ifd,
                x,
                y,
            ),
    {
        let (tile_data, pixel_index) = match self.read_pixel_data(ifd, x, y) {
            Ok(pair) => pair,
            Err(e) => {
                return Err(e);
            },
        };
        PixelReader::read_u32_from_tile(tile_data.as_slice(), pixel_index)
    }

    /// Reads an i32 pixel value at specific coordinates
    pub fn read_pixel_i32(&mut self, ifd: &IFD, x: u64, y: u64) -> (r: Result<i32, Error>)
        requires
            old(self).wf(),
            ifd.wf(),
        ensures
            final(self).wf(),
            final(self).same_file(old(self)),
            final(self).spec_tile_reader().spec_cache().limit()
                == old(self).spec_tile_reader().spec_cache().limit(),
            old(self).coherent(*ifd) ==> final(self).coherent(*ifd),
            r matches Ok(v) ==> old(self).sample(*ifd, x, y, 4) is Some,
            r matches Ok(v) ==> ByteOrder::pattern(v as int, 4) == ByteOrder::LittleEndian.value(
                old(self).sample(*ifd, x, y, 4)->Some_0,
            ),
            old(self).reliable() ==> (r is Ok <==> old(self).sample(*ifd, x, y, 4) is Some),
            r matches Err(e) ==> (e is Io && !old(self).reliable()) || old(self).refused(
                e,
                *ifd,
                x,
                y,
            ),
    {
        let (tile_data, pixel_index) = match self.read_pixel_data(ifd, x, y) {
            Ok(pair) => pair,
            Err(e) => {
                return Err(e);
            },
        };
        PixelReader::read_i32_from_tile(tile_data.as_slice(), pixel_index)
    }

    /// Reads the eight bytes of a 64-bit sample at specific coordinates as
    /// one unsigned value, least significant byte first: the bit pattern of
    /// a double-precision sample.
    pub fn read_pixel_u64(&mut self, ifd: &IFD, x: u64, y: u64) -> (r: Result<u64, Error>)
        requires
            old(self).wf(),
            ifd.wf(),
        ensures
            final(self).wf(),
            final(self).same_file(old(self)),
            final(self).spec_tile_reader().spec_cache().limit()
                == old(self).spec_tile_reader().spec_cache().limit(),
            old(self).coherent(*ifd) ==> final(self).coherent(*ifd),
            r matches Ok(v) ==> old(self).sample(*ifd, x, y, 8) is Some,
            r matches Ok(v) ==> v == ByteOrder::LittleEndian.value(
                old(self).sample(*ifd, x, y, 8)->Some_0,
            ),
            old(self).reliable() ==> (r is Ok <==> old(self).sample(*ifd, x, y, 8) is Some),
            r matches Err(e) ==> (e is Io && !old(self).reliable()) || old(self).refused(
                e,
                *ifd,
                x,
                y,
            ),
    {
        let (tile_data, pixel_index) = match self.read_pixel_data(ifd, x, y) {
            Ok(pair) => pair,
            Err(e) => {
                return Err(e);
            },
        };
        PixelReader::read_u64_from_tile(tile_data.as_slice(), pixel_index)
    }

    /// Reads multiple tiles in parallel, through the cache: tiles that the
    /// cache lacks are loaded and put into it, then all are taken from it.
    pub fn read_tiles_parallel(&mut self, ifd: &IFD, tile_indices: &[usize]) -> (r: Result<
        Vec<Vec<u8>>,
        Error,
    >)
        requires
            old(self).wf(),
            ifd.wf(),
        ensures
            final(self).wf(),
            final(self).same_file(old(self)),
            final(self).spec_tile_reader().spec_reader()
                == old(self).spec_tile_reader().spec_reader(),
            final(self).spec_tile_reader().spec_cache().limit()
                == old(self).spec_tile_reader().spec_cache().limit(),
            old(self).coherent(*ifd) ==> final(self).coherent(*ifd),
            r matches Ok(tiles) ==> tiles@.len() == tile_indices@.len(),
            r matches Ok(tiles) ==> forall|i: int|
                #![trigger tile_indices@[i]]
                0 <= i < tiles@.len() ==> final(self).spec_tile_reader().spec_cache().entries().contains_key(
                    (old(self).spec_current_ifd_index(), tile_indices@[i]),
                ),
            r matches Ok(tiles) ==> forall|i: int|
                #![trigger tiles@[i]]
                0 <= i < tiles@.len() ==> tiles@[i]@ == final(self).spec_tile_reader().spec_cache().entries()[(
                    old(self).spec_current_ifd_index(),
                    tile_indices@[i],
                )],
            old(self).coherent(*ifd) ==> (r matches Ok(tiles) ==> forall|i: int|
                #![trigger tiles@[i]]
                0 <= i < tiles@.len() ==> Tiles::tile(
                    old(self).source(),
                    old(self).spec_byte_order(),
                    *ifd,
                    tile_indices@[i] as nat,
                ) == Some(tiles@[i]@)),
            ParallelReader::outcome(
                r,
                old(self).spec_tile_reader().spec_cache().entries(),
                old(self).spec_tile_reader().spec_cache().recency(),
                old(self).spec_tile_reader().spec_cache().limit(),
                final(self).spec_tile_reader().spec_cache().entries(),
                final(self).spec_tile_reader().spec_cache().recency(),
                *ifd,
                tile_indices@,
                old(self).spec_current_ifd_index(),
                old(self).spec_tile_reader().spec_mmap(),
                old(self).spec_byte_order(),
            ),
    {
        self.tile_reader.set_current_ifd(self.current_ifd_index);
        let mmap = tiles::share(&self.tile_reader.mmap);
        ParallelReader::read_tiles_parallel(
            ifd,
            tile_indices,
            &mut self.tile_reader.cache,
            self.current_ifd_index,
            &mmap,
            self.byte_order,
        )
    }

    /// Reads multiple pixel values by batching tile loads: the tiles that
    /// hold the pixels are loaded once each, in parallel and past the cache,
    /// and value `i` of the result is the sample of pixel `coords[i]`.
    pub fn read_pixels_batch(&mut self, ifd: &IFD, coords: &[(u64, u64)]) -> (r: Result<
        Vec<u8>,
        Error,
    >)
        requires
            old(self).wf(),
            ifd.wf(),
        ensures
            *final(self) == *old(self),
            r matches Ok(values) ==> values@.len() == coords@.len(),
            r matches Ok(values)
                ==> coords@.len() > 0 ==> old(self).spec_tile_reader().spec_mmap() is Some,
            r matches Ok(values) ==> old(self).spec_tile_reader().spec_mmap() is Some ==> Pixels::samples(
                old(self).source(),
                old(self).spec_byte_order(),
                *ifd,
                coords@,
            ) == Some(values@),
            r matches Err(e) ==> e is Unsupported || e is InvalidFormat || e is OutOfBounds
                || e is MissingTag || e is Io,
            r is Err && old(self).spec_tile_reader().spec_mmap() is Some && ifd.spec_get_entry(
                crate::formats::tiff::tags::TILE_OFFSETS,
            ) is Some && ifd.spec_get_entry(crate::formats::tiff::tags::TILE_BYTE_COUNTS) is Some
                && ifd.spec_tile_dimensions() is Some ==> Pixels::samples(
                old(self).source(),
                old(self).spec_byte_order(),
                *ifd,
                coords@,
            ) is None,
            match r {
                Ok(values) => Pixels::gathered(
                    old(self).spec_tile_reader().spec_mmap(),
                    old(self).spec_byte_order(),
                    *ifd,
                    coords@,
                ) == Some(values@),
                Err(e) => {
                    &&& Pixels::gathered(
                        old(self).spec_tile_reader().spec_mmap(),
                        old(self).spec_byte_order(),
                        *ifd,
                        coords@,
                    ) is None
                    &&& Pixels::refused(
                        e,
                        old(self).spec_tile_reader().spec_mmap(),
                        old(self).spec_byte_order(),
                        *ifd,
                        coords@,
                    )
                },
            },
    {
        let ghost source = self.source();
        let ghost order = self.byte_order;
        let mut tile_indices: Vec<usize> = Vec::new();
        let mut slots: Vec<usize> = Vec::new();
        let mut index_of: HashMap<usize, usize> = HashMap::new();
        let mut i: usize = 0;
        while i < coords.len()
            invariant
                i <= coords@.len(),
                ifd.wf(),
                slots@.len() == i,
                forall|j: int|
                    #![trigger slots@[j]]
                    0 <= j < i ==> slots@[j] < tile_indices@.len(),
                forall|j: int|
                    #![trigger coords@[j]]
                    0 <= j < i ==> Pixels::place(*ifd, coords@[j].0, coords@[j].1) is Some,
                forall|j: int|
                    #![trigger slots@[j]]
                    0 <= j < i ==> tile_indices@[slots@[j] as int] == Pixels::place(
                        *ifd,
                        coords@[j].0,
                        coords@[j].1,
                    )->Some_0.0,
                forall|k: int| 0 <= k < tile_indices@.len() ==> #[trigger] Self::used(slots@, k),
                forall|t: usize| #[trigger]
                    index_of@.contains_key(t) ==> index_of@[t] < tile_indices@.len(),
                forall|t: usize| #[trigger]
                    index_of@.contains_key(t) ==> tile_indices@[index_of@[t] as int] == t,
                forall|k: int|
                    0 <= k < tile_indices@.len() ==> index_of@.contains_key(
                        #[trigger] tile_indices@[k],
                    ),
                tile_indices@ == Pixels::tiles_of(*ifd, coords@.subrange(0, i as int)),
            decreases coords@.len() - i,
        {
            let (x, y) = coords[i];
            match PixelReader::validate_tiled_access(ifd) {
                Ok(()) => {},
                Err(e) => {
                    assert(Pixels::first_misplaced(*ifd, coords@, i as int));
                    assert(Pixels::misplaced(e, *ifd, x, y));
                    return Err(e);
                },
            }
            match PixelReader::validate_pixel_bounds(ifd, x, y) {
                Ok(()) => {},
                Err(e) => {
                    assert(Pixels::first_misplaced(*ifd, coords@, i as int));
                    assert(Pixels::misplaced(e, *ifd, x, y));
                    return Err(e);
                },
            }
            let tile_index = match PixelReader::calculate_tile_index(ifd, x, y) {
                Ok(t) => t,
                Err(e) => {
                    assert(Pixels::first_misplaced(*ifd, coords@, i as int));
                    assert(Pixels::misplaced(e, *ifd, x, y));
                    return Err(e);
                },
            };
            let pixel_index = match PixelReader::calculate_pixel_index(ifd, x, y) {
                Ok(p) => p,
                Err(e) => {
                    assert(Pixels::first_misplaced(*ifd, coords@, i as int));
                    assert(Pixels::misplaced(e, *ifd, x, y));
                    return Err(e);
                },
            };
            assert(Pixels::place(*ifd, x, y) == Some((tile_index, pixel_index)));
            let known: Option<usize> = match index_of.get(&tile_index) {
                Some(position) => Some(*position),
                None => None,
            };
            let ghost slots_before = slots@;
            let ghost indices_before = tile_indices@;
            proof {
                let next = coords@.subrange(0, i + 1);
                assert(next.drop_last() =~= coords@.subrange(0, i as int));
                assert(next.last() == coords@[i as int]);
                if known is Some {
                    assert(indices_before[index_of@[tile_index] as int] == tile_index);
                    assert(indices_before.contains(tile_index));
                } else {
                    assert(!indices_before.contains(tile_index));
                }
            }
            match known {
                Some(position) => {
                    slots.push(position);
                },
                None => {
                    index_of.insert(tile_index, tile_indices.len());
                    slots.push(tile_indices.len());
                    tile_indices.push(tile_index);
                },
            }
            proof {
                assert forall|k: int| 0 <= k < tile_indices@.len() implies index_of@.contains_key(
                    #[trigger] tile_indices@[k],
                ) by {
                    if k < indices_before.len() {
                        assert(tile_indices@[k] == indices_before[k]);
                    }
                }
                assert forall|j: int| #![trigger slots@[j]] 0 <= j < i + 1 implies slots@[j]
                    < tile_indices@.len() by {
                    if j < i {
                        assert(slots@[j] == slots_before[j]);
                    }
                }
                assert forall|j: int| #![trigger slots@[j]] 0 <= j < i + 1 implies tile_indices@[slots@[j] as int]
                    == Pixels::place(*ifd, coords@[j].0, coords@[j].1)->Some_0.0 by {
                    if j < i {
                        assert(slots@[j] == slots_before[j]);
                        assert(tile_indices@[slots@[j] as int] == indices_before[slots_before[j] as int]);
                    }
                }
                assert forall|j: int| #![trigger coords@[j]] 0 <= j < i + 1 implies Pixels::place(
                    *ifd,
                    coords@[j].0,
                    coords@[j].1,
                ) is Some by {
                }
                assert forall|k: int| 0 <= k < tile_indices@.len() implies #[trigger] Self::used(
                    slots@,
                    k,
                ) by {
                    if k < indices_before.len() {
                        assert(Self::used(slots_before, k));
                        let j = choose|j: int| 0 <= j < slots_before.len() && slots_before[j] == k;
                        assert(slots@[j] == k);
                    } else {
                        assert(slots@[i as int] == k);
                    }
                }
            }
            i = i + 1;
        }
        let tiles = match ParallelReader::read_tiles_parallel_direct(
            ifd,
            tile_indices.as_slice(),
            &self.tile_reader.mmap,
            self.tile_reader.byte_order,
        ) {
            Ok(t) => t,
            Err(e) => {
                proof {
                    assert(coords@.subrange(0, i as int) =~= coords@);
                    if self.tile_reader.mmap is Some && ifd.spec_get_entry(
                        crate::formats::tiff::tags::TILE_OFFSETS,
                    ) is Some && ifd.spec_get_entry(crate::formats::tiff::tags::TILE_BYTE_COUNTS)
                        is Some && ifd.spec_tile_dimensions() is Some {
                        let k = choose|k: int|
                            0 <= k < tile_indices@.len() && Tiles::tile(
                                source,
                                order,
                                *ifd,
                                #[trigger] tile_indices@[k] as nat,
                            ) is None;
                        assert(Self::used(slots@, k));
                        let j = choose|j: int| 0 <= j < slots@.len() && slots@[j] == k;
                        assert(Pixels::sample(source, order, *ifd, coords@[j].0, coords@[j].1, 1)
                            is None);
                    }
                }
                return Err(e);
            },
        };
        assert(coords@.subrange(0, i as int) =~= coords@);
        assert forall|j: int| !#[trigger] Pixels::first_misplaced(*ifd, coords@, j) by {
            if 0 <= j < coords@.len() {
                assert(Pixels::place(*ifd, coords@[j].0, coords@[j].1) is Some);
            }
        }
        let mut results: Vec<u8> = Vec::new();
        let mut n: usize = 0;
        while n < coords.len()
            invariant
                n <= coords@.len(),
                ifd.wf(),
                slots@.len() == coords@.len(),
                tiles@.len() == tile_indices@.len(),
                results@.len() == n,
                source == self.source(),
                order == self.byte_order,
                self.wf(),
                *self == *old(self),
                tiles@.len() > 0 ==> self.tile_reader.mmap is Some,
                tile_indices@ == Pixels::tiles_of(*ifd, coords@),
                ParallelReader::loadable(
                    *ifd,
                    tile_indices@,
                    self.tile_reader.mmap,
                    self.byte_order,
                ),
                forall|j: int| !#[trigger] Pixels::first_misplaced(*ifd, coords@, j),
                forall|j: int|
                    #![trigger slots@[j]]
                    0 <= j < slots@.len() ==> slots@[j] < tile_indices@.len(),
                forall|j: int|
                    #![trigger coords@[j]]
                    0 <= j < slots@.len() ==> Pixels::place(*ifd, coords@[j].0, coords@[j].1)
                        is Some,
                forall|j: int|
                    #![trigger slots@[j]]
                    0 <= j < slots@.len() ==> tile_indices@[slots@[j] as int] == Pixels::place(
                        *ifd,
                        coords@[j].0,
                        coords@[j].1,
                    )->Some_0.0,
                forall|k: int|
                    #![trigger tiles@[k]]
                    0 <= k < tiles@.len() ==> Tiles::tile(
                        source,
                        order,
                        *ifd,
                        tile_indices@[k] as nat,
                    ) == Some(tiles@[k]@),
                forall|j: int|
                    #![trigger results@[j]]
                    0 <= j < n ==> Pixels::sample(
                        source,
                        order,
                        *ifd,
                        coords@[j].0,
                        coords@[j].1,
                        1,
                    ) == Some(seq![results@[j]]),
            decreases coords@.len() - n,
        {
            let (x, y) = coords[n];
            let slot = slots[n];
            let tile = &tiles[slot];
            let pixel_index = match PixelReader::calculate_pixel_index(ifd, x, y) {
                Ok(p) => p,
                Err(e) => {
                    return Err(e);
                },
            };
            let ghost results_before = results@;
            match PixelReader::read_u8_from_tile(tile.as_slice(), pixel_index) {
                Ok(v) => {
                    results.push(v);
                    proof {
                        assert(tile@.subrange(pixel_index * 1, pixel_index * 1 + 1) =~= seq![v]);
                        assert forall|j: int| #![trigger results@[j]] 0 <= j < n + 1 implies Pixels::sample(
                            source,
                            order,
                            *ifd,
                            coords@[j].0,
                            coords@[j].1,
                            1,
                        ) == Some(seq![results@[j]]) by {
                            if j < n {
                                assert(results@[j] == results_before[j]);
                            }
                        }
                    }
                },
                Err(e) => {
                    proof {
                        assert(Pixels::sample(
                            source,
                            order,
                            *ifd,
                            coords@[n as int].0,
                            coords@[n as int].1,
                            1,
                        ) is None);
                        assert(slots@[n as int] < tiles@.len());
                        assert(self.tile_reader.mmap->Some_0@ == source);
                        assert(Pixels::samples(source, order, *ifd, coords@) is None);
                    }
                    return Err(e);
                },
            }
            n = n + 1;
        }
        proof {
            if self.tile_reader.mmap is None {
                assert(coords@.len() == 0) by {
                    if coords@.len() > 0 {
                        assert(slots@[0] < tile_indices@.len());
                    }
                }
                let bytes = self.tile_reader.mmap->Some_0@;
                assert(Pixels::samples(bytes, order, *ifd, coords@)->Some_0 =~= results@);
            }
            if self.tile_reader.mmap is Some {
                let expected = Pixels::samples(source, order, *ifd, coords@);
                assert forall|j: int| 0 <= j < coords@.len() implies Pixels::sample(
                    source,
                    order,
                    *ifd,
                    (#[trigger] coords@[j]).0,
                    coords@[j].1,
                    1,
                ) is Some by {
                    assert(Pixels::sample(source, order, *ifd, coords@[j].0, coords@[j].1, 1)
                        == Some(seq![results@[j]]));
                }
                assert(expected is Some);
                assert forall|j: int| 0 <= j < coords@.len() implies expected->Some_0[j]
                    == results@[j] by {
                    assert(Pixels::sample(source, order, *ifd, coords@[j].0, coords@[j].1, 1)
                        == Some(seq![results@[j]]));
                }
                assert(expected->Some_0 =~= results@);
            }
            if coords@.len() > 0 {
                assert(slots@[0] < tile_indices@.len());
            }
        }
        Ok(results)
    }

    /// Whether place `k` of the list of distinct tiles is the tile of one of
    /// the pixels.
    pub open(crate) spec fn used(slots: Seq<usize>, k: int) -> bool {
        exists|j: int| 0 <= j < slots.len() && #[trigger] slots[j] == k
    }
}

} // verus!
