//! JPEG decompression for TIFF files
//!
//! Tiles are decoded where they are coded with the discrete cosine
//! transform. A lossless stream is refused: the decoder hands out its samples
//! in the byte order of the machine, so its bytes are not a function of the
//! stream.

use vstd::prelude::*;
use crate::error::Error;
use crate::text::concat;

verus! {

/// The coding process of a JPEG frame.
#[derive(Debug, Clone, Copy, PartialEq, Eq, Structural)]
pub enum JpegProcess {
    /// Sequential discrete cosine transform
    DctSequential,
    /// Progressive discrete cosine transform
    DctProgressive,
    /// Lossless
    Lossless,
}

/// The samples that a JPEG stream decodes to, one byte each: `None` where
/// the decoder rejects the stream (a malformed stream, an unsupported
/// feature, or tables that the stream does not carry), and for a stream that
/// is not coded with the discrete cosine transform. The format is left to
/// `jpeg_decoder`; this crate only names the result.
pub uninterp spec fn jpeg_samples(data: Seq<u8>) -> Option<Seq<u8>>;

/// `jpeg_decoder::Decoder::new` over `data`, then `Decoder::decode`, and the
/// coding process that `Decoder::info` tells afterwards. The crate is built
/// with its feature `platform_independent`, which leaves out the routines
/// that are chosen by the processor. A frame of a discrete cosine transform
/// has samples of eight bits, which come out one byte each, the same on every
/// machine: only of those does the contract say what they are. Of the bytes
/// of a lossless frame it says nothing. The decoder's error comes back as the
/// text that `Display` gives it.
#[verifier::external_body]
fn jpeg_decode(data: &[u8]) -> (r: Result<(Vec<u8>, Option<JpegProcess>), String>)
    ensures
        r matches Ok((out, Some(JpegProcess::DctSequential))) ==> jpeg_samples(data@) == Some(out@),
        r matches Ok((out, Some(JpegProcess::DctProgressive))) ==> jpeg_samples(data@) == Some(out@),
        r matches Ok((_, Some(JpegProcess::Lossless))) ==> jpeg_samples(data@) is None,
        r matches Ok((_, None)) ==> jpeg_samples(data@) is None,
        r is Err ==> jpeg_samples(data@) is None,
{
    let mut decoder = jpeg_decoder::Decoder::new(data);
    match decoder.decode() {
        Ok(out) => Ok((out, match decoder.info() {
            Some(info) => Some(match info.coding_process {
                jpeg_decoder::CodingProcess::DctSequential => JpegProcess::DctSequential,
                jpeg_decoder::CodingProcess::DctProgressive => JpegProcess::DctProgressive,
                jpeg_decoder::CodingProcess::Lossless => JpegProcess::Lossless,
            }),
            None => None,
        })),
        Err(e) => Err(e.to_string()),
    }
}

/// What is handed on of a decoded stream: the samples of a frame of a
/// discrete cosine transform, and nothing of any other.
pub fn portable_samples(out: Vec<u8>, process: Option<JpegProcess>) -> (r: Option<Vec<u8>>)
    ensures
        r == match process {
            Some(JpegProcess::DctSequential) => Some(out),
            Some(JpegProcess::DctProgressive) => Some(out),
            _ => None,
        },
{
    match process {
        Some(JpegProcess::DctSequential) => Some(out),
        Some(JpegProcess::DctProgressive) => Some(out),
        Some(JpegProcess::Lossless) => None,
        None => None,
    }
}

/// Decompresses JPEG compressed data. What the decoder rejects is reported
/// as `InvalidFormat`, with the decoder's words, and so is a lossless stream.
pub fn decompress(data: &[u8]) -> (r: Result<Vec<u8>, Error>)
    ensures
        r matches Ok(out) ==> jpeg_samples(data@) == Some(out@),
        r matches Err(e) ==> jpeg_samples(data@) is None && e is InvalidFormat,
{
    match jpeg_decode(data) {
        Ok((out, process)) => match portable_samples(out, process) {
            Some(samples) => Ok(samples),
            None => Err(
                Error::InvalidFormat(
                    concat("JPEG error: ", "only frames of a discrete cosine transform are decoded"),
                ),
            ),
        },
        Err(text) => Err(Error::InvalidFormat(concat("JPEG error: ", text.as_str()))),
    }
}

} // verus!
