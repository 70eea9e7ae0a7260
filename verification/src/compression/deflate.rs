//! Deflate/ZIP decompression

use vstd::prelude::*;
use crate::error::Error;

verus! {

/// What a zlib stream inflates to: `None` where the stream is not a valid
/// one. The format is that of RFC 1950 and RFC 1951; this crate leaves it to
/// `flate2` and only names the result.
pub uninterp spec fn inflated(data: Seq<u8>) -> Option<Seq<u8>>;

/// `flate2::read::ZlibDecoder::new` over `data`, read to its end with
/// `std::io::Read::read_to_end`. The decoder is a function of the bytes it is
/// given: it hands back the inflated bytes, or the error that the stream
/// fails with.
#[verifier::external_body]
fn zlib_read_to_end(data: &[u8]) -> (r: Result<Vec<u8>, std::io::Error>)
    ensures
        r matches Ok(out) ==> inflated(data@) == Some(out@),
        r is Err ==> inflated(data@) is None,
{
    let mut decoder = flate2::read::ZlibDecoder::new(data);
    let mut decompressed = Vec::new();
    match std::io::Read::read_to_end(&mut decoder, &mut decompressed) {
        Ok(_) => Ok(decompressed),
        Err(e) => Err(e),
    }
}

/// Decompresses Deflate/ZIP compressed data. A stream that does not inflate
/// is reported with the decoder's I/O error.
pub fn decompress(data: &[u8]) -> (r: Result<Vec<u8>, Error>)
    ensures
        r matches Ok(out) ==> inflated(data@) == Some(out@),
        r matches Err(e) ==> inflated(data@) is None && e is Io,
{
    match zlib_read_to_end(data) {
        Ok(out) => Ok(out),
        Err(e) => Err(Error::from(e)),
    }
}

} // verus!
