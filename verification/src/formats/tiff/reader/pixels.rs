//! Pixel value reading operations
//!
//! A pixel `(x, y)` of a tiled image lies in the tile with index
//! `(y / Th) * ceil(W / Tw) + (x / Tw)`, at place
//! `(y mod Th) * Tw + (x mod Tw)` within it. Samples are read from the bytes
//! of a tile least significant byte first.

use vstd::prelude::*;
use vstd::arithmetic::div_mod::{
    lemma_fundamental_div_mod,
    lemma_fundamental_div_mod_converse,
};
use crate::error::Error;
use crate::formats::tiff::ifd::IFD;
use crate::io::byte_order::{to_i16, to_i32, ByteOrder};
use crate::types::Dimensions;

verus! {

/// Handles pixel value reading and coordinate calculations
pub struct PixelReader;

impl PixelReader {
    /// `ceil(width / tile_width)`: the number of tiles in one row of tiles.
    pub open spec fn tiles_across(width: int, tile_width: int) -> int {
        width / tile_width + if width % tile_width == 0 {
            0int
        } else {
            1int
        }
    }

    /// The index of the tile that holds pixel `(x, y)`.
    pub open spec fn tile_index_of(dims: Dimensions, tile: Dimensions, x: int, y: int) -> int {
        (y / tile.height as int) * Self::tiles_across(dims.width as int, tile.width as int) + x
            / tile.width as int
    }

    /// The place of pixel `(x, y)` within its tile.
    pub open spec fn pixel_index_of(tile: Dimensions, x: int, y: int) -> int {
        (y % tile.height as int) * tile.width + x % tile.width as int
    }

    /// The samples of a tile are self-contained: its index and the place
    /// within it give the pixel back. For every pixel of the image, the tile
    /// index counts rows of `ceil(W / Tw)` tiles, the place lies within the
    /// tile, and
    /// `x = (tile mod across) * Tw + place mod Tw`,
    /// `y = (tile / across) * Th + place / Tw`.
    pub proof fn lemma_tile_addressing(dims: Dimensions, tile: Dimensions, x: int, y: int)
        requires
            tile.width > 0,
            tile.height > 0,
            0 <= x < dims.width,
            0 <= y < dims.height,
        ensures
            ({
                let across = Self::tiles_across(dims.width as int, tile.width as int);
                let t = Self::tile_index_of(dims, tile, x, y);
                let p = Self::pixel_index_of(tile, x, y);
                &&& across > 0
                &&& 0 <= t
                &&& t / across == y / tile.height as int
                &&& t % across == x / tile.width as int
                &&& 0 <= p < tile.width * tile.height
                &&& x == (t % across) * tile.width + p % tile.width as int
                &&& y == (t / across) * tile.height + p / tile.width as int
            }),
    {
        let tw = tile.width as int;
        let th = tile.height as int;
        let w = dims.width as int;
        let across = Self::tiles_across(w, tw);
        let tx = x / tw;
        let ty = y / th;
        let px = x % tw;
        let py = y % th;
        lemma_fundamental_div_mod(x, tw);
        lemma_fundamental_div_mod(y, th);
        lemma_fundamental_div_mod(w, tw);
        // x < w, so x / tw lies below the number of tiles in a row
        assert(tx < across) by (nonlinear_arith)
            requires
                0 <= x < w,
                tw > 0,
                tx == x / tw,
                x == tw * tx + x % tw,
                0 <= x % tw < tw,
                w == tw * (w / tw) + w % tw,
                0 <= w % tw < tw,
                across == w / tw + if w % tw == 0 {
                    0int
                } else {
                    1int
                },
        ;
        assert(tx >= 0 && ty >= 0) by (nonlinear_arith)
            requires
                x >= 0,
                y >= 0,
                tw > 0,
                th > 0,
                tx == x / tw,
                ty == y / th,
        ;
        let t = ty * across + tx;
        assert(t == across * ty + tx) by (nonlinear_arith)
            requires
                t == ty * across + tx,
        ;
        lemma_fundamental_div_mod_converse(t, across, ty, tx);
        let p = py * tw + px;
        assert(p == tw * py + px) by (nonlinear_arith)
            requires
                p == py * tw + px,
        ;
        lemma_fundamental_div_mod_converse(p, tw, py, px);
        assert(p < tw * th) by (nonlinear_arith)
            requires
                p == py * tw + px,
                0 <= px < tw,
                0 <= py < th,
        ;
        assert(t >= 0) by (nonlinear_arith)
            requires
                t == ty * across + tx,
                ty >= 0,
                tx >= 0,
                across > 0,
        ;
        assert(x == tx * tw + px) by (nonlinear_arith)
            requires
                x == tw * tx + px,
        ;
        assert(y == ty * th + py) by (nonlinear_arith)
            requires
                y == th * ty + py,
        ;
    }

    /// Validates that the IFD supports tiled access
    pub fn validate_tiled_access(ifd: &IFD) -> (r: Result<(), Error>)
        requires
            ifd.wf(),
        ensures
            r is Ok <==> ifd.spec_is_tiled(),
            r is Err ==> r->Err_0 is Unsupported,
    {
        if !ifd.is_tiled() {
            return Err(Error::Unsupported("Only tiled images supported".to_string()));
        }
        Ok(())
    }

    /// Validates that pixel coordinates are within bounds: an image without
    /// dimensions is `InvalidFormat`, a pixel outside the image `OutOfBounds`.
    pub fn validate_pixel_bounds(ifd: &IFD, x: u64, y: u64) -> (r: Result<(), Error>)
        requires
            ifd.wf(),
        ensures
            match ifd.spec_dimensions() {
                None => r is Err && r->Err_0 is InvalidFormat,
                Some(dims) => if x < dims.width && y < dims.height {
                    r is Ok
                } else {
                    r is Err && r->Err_0 is OutOfBounds
                },
            },
    {
        let dims = match ifd.dimensions() {
            Some(d) => d,
            None => {
                return Err(Error::InvalidFormat("Missing dimensions".to_string()));
            },
        };
        if x >= dims.width || y >= dims.height {
            return Err(Error::OutOfBounds("Pixel outside image bounds".to_string()));
        }
        Ok(())
    }

    /// Calculates which tile contains a pixel. Missing dimensions, missing
    /// tile dimensions and a tile size of zero are `InvalidFormat`; an index
    /// that does not fit `usize` is `OutOfBounds`.
    pub fn calculate_tile_index(ifd: &IFD, x: u64, y: u64) -> (r: Result<usize, Error>)
        requires
            ifd.wf(),
        ensures
            match (ifd.spec_dimensions(), ifd.spec_tile_dimensions()) {
                (Some(dims), Some(tile)) => if tile.width == 0 || tile.height == 0 {
                    r is Err && r->Err_0 is InvalidFormat
                } else if Self::tile_index_of(dims, tile, x as int, y as int) <= usize::MAX {
                    r == Ok::<usize, Error>(
                        Self::tile_index_of(dims, tile, x as int, y as int) as usize,
                    )
                } else {
                    r is Err && r->Err_0 is OutOfBounds
                },
                _ => r is Err && r->Err_0 is InvalidFormat,
            },
    {
        let dims = match ifd.dimensions() {
            Some(d) => d,
            None => {
                return Err(Error::InvalidFormat("Missing dimensions".to_string()));
            },
        };
        let tile_dims = match ifd.tile_dimensions() {
            Some(d) => d,
            None => {
                return Err(Error::InvalidFormat("Missing tile dimensions".to_string()));
            },
        };
        if tile_dims.width == 0 || tile_dims.height == 0 {
            return Err(Error::InvalidFormat("Tile dimensions must not be zero".to_string()));
        }
        let tile_x: u64 = x / tile_dims.width;
        let tile_y: u64 = y / tile_dims.height;
        let whole: u64 = dims.width / tile_dims.width;
        let tiles_across: u128 = if dims.width % tile_dims.width == 0 {
            whole as u128
        } else {
            whole as u128 + 1
        };
        assert(tile_y as u128 * tiles_across <= 0xFFFF_FFFF_FFFF_FFFF * 0x1_0000_0000_0000_0000)
            by (nonlinear_arith)
            requires
                tile_y <= 0xFFFF_FFFF_FFFF_FFFF,
                tiles_across <= 0x1_0000_0000_0000_0000,
        ;
        let index: u128 = tile_y as u128 * tiles_across + tile_x as u128;
        if index > usize::MAX as u128 {
            return Err(Error::OutOfBounds("Tile index does not fit".to_string()));
        }
        Ok(index as usize)
    }

    /// Calculates pixel index within a tile. Missing tile dimensions and a
    /// tile size of zero are `InvalidFormat`; an index that does not fit
    /// `usize` is `OutOfBounds`.
    pub fn calculate_pixel_index(ifd: &IFD, x: u64, y: u64) -> (r: Result<usize, Error>)
        requires
            ifd.wf(),
        ensures
            match ifd.spec_tile_dimensions() {
                Some(tile) => if tile.width == 0 || tile.height == 0 {
                    r is Err && r->Err_0 is InvalidFormat
                } else if Self::pixel_index_of(tile, x as int, y as int) <= usize::MAX {
                    r == Ok::<usize, Error>(Self::pixel_index_of(tile, x as int, y as int) as usize)
                } else {
                    r is Err && r->Err_0 is OutOfBounds
                },
                None => r is Err && r->Err_0 is InvalidFormat,
            },
    {
        let tile_dims = match ifd.tile_dimensions() {
            Some(d) => d,
            None => {
                return Err(Error::InvalidFormat("Missing tile dimensions".to_string()));
            },
        };
        if tile_dims.width == 0 || tile_dims.height == 0 {
            return Err(Error::InvalidFormat("Tile dimensions must not be zero".to_string()));
        }
        let pixel_x: u64 = x % tile_dims.width;
        let pixel_y: u64 = y % tile_dims.height;
        assert(pixel_y as u128 * tile_dims.width as u128 <= 0xFFFF_FFFF_FFFF_FFFF
            * 0xFFFF_FFFF_FFFF_FFFF) by (nonlinear_arith)
            requires
                pixel_y <= 0xFFFF_FFFF_FFFF_FFFF,
                tile_dims.width <= 0xFFFF_FFFF_FFFF_FFFF,
        ;
        let index: u128 = pixel_y as u128 * tile_dims.width as u128 + pixel_x as u128;
        if index > usize::MAX as u128 {
            return Err(Error::OutOfBounds("Pixel index does not fit".to_string()));
        }
        Ok(index as usize)
    }

    /// Reads a u8 pixel value from tile data
    pub fn read_u8_from_tile(tile_data: &[u8], pixel_index: usize) -> (r: Result<u8, Error>)
        ensures
            if pixel_index < tile_data@.len() {
                r == Ok::<u8, Error>(tile_data@[pixel_index as int])
            } else {
                r is Err && r->Err_0 is OutOfBounds
            },
    {
        if pixel_index < tile_data.len() {
            Ok(tile_data[pixel_index])
        } else {
            Err(Error::OutOfBounds("Pixel index exceeds tile data length".to_string()))
        }
    }

    /// Reads N bytes for a pixel value from tile data: those at byte offset
    /// `pixel_index * N`.
    pub fn read_bytes_from_tile<const N: usize>(tile_data: &[u8], pixel_index: usize) -> (r: Result<
        [u8; N],
        Error,
    >)
        ensures
            match r {
                Ok(bytes) => pixel_index * N + N <= tile_data@.len() && bytes@
                    == tile_data@.subrange(pixel_index * N, pixel_index * N + N),
                Err(e) => pixel_index * N + N > tile_data@.len() && e is OutOfBounds,
            },
    {
        let len: usize = tile_data.len();
        // pixel_index * N + N <= len  <==>  N <= len and pixel_index <= (len - N) / N
        proof {
            if 0 < N <= len {
                let q = (len - N) / (N as int);
                lemma_fundamental_div_mod(len - N, N as int);
                assert(q * N <= len - N && (q + 1) * N > len - N) by (nonlinear_arith)
                    requires
                        len - N == N * q + (len - N) % (N as int),
                        0 <= (len - N) % (N as int) < N,
                ;
            }
        }
        if N > len || (N > 0 && pixel_index > (len - N) / N) {
            proof {
                if N <= len {
                    assert(pixel_index * N + N > len) by (nonlinear_arith)
                        requires
                            N > 0,
                            N <= len,
                            pixel_index >= (len - N) / (N as int) + 1,
                            ((len - N) / (N as int) + 1) * N > len - N,
                    ;
                }
            }
            return Err(Error::OutOfBounds("Pixel offset exceeds tile data length".to_string()));
        }
        proof {
            if N > 0 {
                assert(pixel_index * N + N <= len) by (nonlinear_arith)
                    requires
                        N > 0,
                        N <= len,
                        pixel_index <= (len - N) / (N as int),
                        ((len - N) / (N as int)) * N <= len - N,
                ;
            } else {
                assert(pixel_index * N == 0) by (nonlinear_arith)
                    requires
                        N == 0,
                ;
            }
        }
        let byte_offset: usize = pixel_index * N;
        let mut bytes = [0u8; N];
        let mut i: usize = 0;
        while i < N
            invariant
                i <= N,
                len == tile_data@.len(),
                byte_offset + N <= len,
                forall|j: int| 0 <= j < i ==> bytes@[j] == tile_data@[byte_offset + j],
            decreases N - i,
        {
            bytes[i] = tile_data[byte_offset + i];
            i = i + 1;
        }
        assert(bytes@ =~= tile_data@.subrange(byte_offset as int, byte_offset + N));
        Ok(bytes)
    }

    /// Reads a u16 pixel value from tile data
    pub fn read_u16_from_tile(tile_data: &[u8], pixel_index: usize) -> (r: Result<u16, Error>)
        ensures
            match r {
                Ok(v) => pixel_index * 2 + 2 <= tile_data@.len() && v
                    == ByteOrder::LittleEndian.value(
                    tile_data@.subrange(pixel_index * 2, pixel_index * 2 + 2),
                ),
                Err(e) => pixel_index * 2 + 2 > tile_data@.len() && e is OutOfBounds,
            },
    {
        match Self::read_bytes_from_tile::<2>(tile_data, pixel_index) {
            Ok(bytes) => {
                proof {
                    ByteOrder::lemma_weights();
                    ByteOrder::lemma_value_bound(bytes@, 2);
                }
                Ok(ByteOrder::LittleEndian.decode(bytes.as_slice()) as u16)
            },
            Err(e) => Err(e),
        }
    }

    /// Reads an i16 pixel value from tile data
    pub fn read_i16_from_tile(tile_data: &[u8], pixel_index: usize) -> (r: Result<i16, Error>)
        ensures
            match r {
                Ok(v) => pixel_index * 2 + 2 <= tile_data@.len() && ByteOrder::pattern(v as int, 2)
                    == ByteOrder::LittleEndian.value(
                    tile_data@.subrange(pixel_index * 2, pixel_index * 2 + 2),
                ),
                Err(e) => pixel_index * 2 + 2 > tile_data@.len() && e is OutOfBounds,
            },
    {
        match Self::read_bytes_from_tile::<2>(tile_data, pixel_index) {
            Ok(bytes) => {
                proof {
                    ByteOrder::lemma_value_bound(bytes@, 2);
                }
                Ok(to_i16(ByteOrder::LittleEndian.decode(bytes.as_slice())))
            },
            Err(e) => Err(e),
        }
    }

    /// Reads a u32 pixel value from tile data
    pub fn read_u32_from_tile(tile_data: &[u8], pixel_index: usize) -> (r: Result<u32, Error>)
        ensures
            match r {
                Ok(v) => pixel_index * 4 + 4 <= tile_data@.len() && v
                    == ByteOrder::LittleEndian.value(
                    tile_data@.subrange(pixel_index * 4, pixel_index * 4 + 4),
                ),
                Err(e) => pixel_index * 4 + 4 > tile_data@.len() && e is OutOfBounds,
            },
    {
        match Self::read_bytes_from_tile::<4>(tile_data, pixel_index) {
            Ok(bytes) => {
                proof {
                    ByteOrder::lemma_weights();
                    ByteOrder::lemma_value_bound(bytes@, 4);
                }
                Ok(ByteOrder::LittleEndian.decode(bytes.as_slice()) as u32)
            },
            Err(e) => Err(e),
        }
    }

    /// Reads an i32 pixel value from tile data
    pub fn read_i32_from_tile(tile_data: &[u8], pixel_index: usize) -> (r: Result<i32, Error>)
        ensures
            match r {
                Ok(v) => pixel_index * 4 + 4 <= tile_data@.len() && ByteOrder::pattern(v as int, 4)
                    == ByteOrder::LittleEndian.value(
                    tile_data@.subrange(pixel_index * 4, pixel_index * 4 + 4),
                ),
                Err(e) => pixel_index * 4 + 4 > tile_data@.len() && e is OutOfBounds,
            },
    {
        match Self::read_bytes_from_tile::<4>(tile_data, pixel_index) {
            Ok(bytes) => {
                proof {
                    ByteOrder::lemma_value_bound(bytes@, 4);
                }
                Ok(to_i32(ByteOrder::LittleEndian.decode(bytes.as_slice())))
            },
            Err(e) => Err(e),
        }
    }

    /// Reads the eight bytes of a 64-bit sample from tile data as one
    /// unsigned value: the bit pattern of a double-precision sample.
    pub fn read_u64_from_tile(tile_data: &[u8], pixel_index: usize) -> (r: Result<u64, Error>)
        ensures
            match r {
                Ok(v) => pixel_index * 8 + 8 <= tile_data@.len() && v
                    == ByteOrder::LittleEndian.value(
                    tile_data@.subrange(pixel_index * 8, pixel_index * 8 + 8),
                ),
                Err(e) => pixel_index * 8 + 8 > tile_data@.len() && e is OutOfBounds,
            },
    {
        match Self::read_bytes_from_tile::<8>(tile_data, pixel_index) {
            Ok(bytes) => Ok(ByteOrder::LittleEndian.decode(bytes.as_slice())),
            Err(e) => Err(e),
        }
    }
}

} // verus!
