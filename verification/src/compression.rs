//! Compression and decompression utilities

pub mod deflate;
pub mod lzw;
pub mod packbits;
pub mod jpeg;

use vstd::prelude::*;
use vstd::slice::slice_to_vec;
use crate::error::Error;
use crate::text::{concat, format_u64};

verus! {

/// Compression types
#[derive(Debug, Clone, Copy, PartialEq, Eq, Structural)]
pub enum Compression {
    /// No compression
    Uncompressed,
    /// Deflate/ZIP compression
    Deflate,
    /// LZW compression
    Lzw,
    /// PackBits compression
    PackBits,
    /// JPEG compression
    Jpeg,
}

impl Compression {
    /// The compression that a value of the TIFF compression tag names.
    pub open spec fn spec_from_tag(value: u64) -> Option<Compression> {
        if value == 1 {
            Some(Compression::Uncompressed)
        } else if value == 5 {
            Some(Compression::Lzw)
        } else if value == 8 {
            Some(Compression::Deflate)
        } else if value == 32773 {
            Some(Compression::PackBits)
        } else if value == 7 {
            Some(Compression::Jpeg)
        } else {
            None
        }
    }

    /// The name of each compression as text.
    pub open spec fn spec_name(self) -> Seq<char> {
        match self {
            Compression::Uncompressed => "None"@,
            Compression::Deflate => "Deflate/ZIP"@,
            Compression::Lzw => "LZW"@,
            Compression::PackBits => "PackBits"@,
            Compression::Jpeg => "JPEG"@,
        }
    }

    /// What `data` decompresses to under this compression: `None` where the
    /// data is not a valid stream of it.
    pub open spec fn decoded(self, data: Seq<u8>) -> Option<Seq<u8>> {
        match self {
            Compression::Uncompressed => Some(data),
            Compression::Deflate => crate::compression::deflate::inflated(data),
            Compression::Lzw => crate::compression::lzw::decoded(data),
            Compression::PackBits => crate::compression::packbits::unpacked(data),
            Compression::Jpeg => crate::compression::jpeg::jpeg_samples(data),
        }
    }

    /// Creates compression from TIFF compression tag value. A value that
    /// names none is `Unsupported`.
    pub fn from_tag(value: u64) -> (r: Result<Self, Error>)
        ensures
            r matches Ok(c) ==> Self::spec_from_tag(value) == Some(c),
            r matches Err(e) ==> Self::spec_from_tag(value) is None && e is Unsupported,
    {
        if value == 1 {
            Ok(Compression::Uncompressed)
        } else if value == 5 {
            Ok(Compression::Lzw)
        } else if value == 8 {
            Ok(Compression::Deflate)
        } else if value == 32773 {
            Ok(Compression::PackBits)
        } else if value == 7 {
            Ok(Compression::Jpeg)
        } else {
            Err(Error::Unsupported(concat("Compression type ", format_u64(value).as_str())))
        }
    }

    /// Returns the name of this compression type
    pub fn name(&self) -> (s: &'static str)
        ensures
            s@ == self.spec_name(),
    {
        match self {
            Compression::Uncompressed => "None",
            Compression::Deflate => "Deflate/ZIP",
            Compression::Lzw => "LZW",
            Compression::PackBits => "PackBits",
            Compression::Jpeg => "JPEG",
        }
    }

    /// Decompresses data. Data that is no valid stream of this compression is
    /// an error: an I/O error for Deflate, `InvalidFormat` for the others.
    pub fn decompress(&self, data: &[u8]) -> (r: Result<Vec<u8>, Error>)
        ensures
            r matches Ok(out) ==> self.decoded(data@) == Some(out@),
            r matches Err(e) ==> self.decoded(data@) is None && if *self == Compression::Deflate {
                e is Io
            } else {
                e is InvalidFormat
            },
    {
        match self {
            Compression::Uncompressed => Ok(slice_to_vec(data)),
            Compression::Deflate => deflate::decompress(data),
            Compression::Lzw => lzw::decompress(data),
            Compression::PackBits => packbits::decompress(data),
            Compression::Jpeg => jpeg::decompress(data),
        }
    }
}

} // verus!
