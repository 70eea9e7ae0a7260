//! Error kinds of the raster engine.

use vstd::prelude::*;
use crate::text::{concat, format_hex4, format_u64};

verus! {

/// `std::io::Error`, carried through as it comes: the verifier sees nothing
/// inside it.
#[verifier::external_type_specification]
#[verifier::external_body]
pub struct ExIoError(std::io::Error);

/// Errors that the raster engine reports.
#[derive(Debug)]
pub enum Error {
    /// I/O error
    Io(std::io::Error),
    /// Invalid TIFF format
    InvalidFormat(String),
    /// Invalid byte order
    InvalidByteOrder(u16),
    /// Invalid TIFF magic number
    InvalidMagic(u16),
    /// Invalid tag
    InvalidTag(u16),
    /// Missing required tag
    MissingTag(u16),
    /// Unsupported feature
    Unsupported(String),
    /// Invalid IFD offset
    InvalidOffset(u64),
    /// Out of bounds access
    OutOfBounds(String),
    /// Projection error
    Projection(String),
}

/// `std::fmt::Display` of `std::io::Error`, through `ToString`. The text of an
/// operating-system error is the platform's, so nothing is claimed of it.
#[verifier::external_body]
fn io_error_text(e: &std::io::Error) -> (s: String) {
    e.to_string()
}

/// `std::io::Error::from` on `ErrorKind::UnexpectedEof`: the error that a
/// reader gives when its source ends before the buffer is full.
#[verifier::external_body]
pub(crate) fn unexpected_eof() -> (e: std::io::Error) {
    std::io::Error::from(std::io::ErrorKind::UnexpectedEof)
}

/// `std::io::Error::from` on `ErrorKind::InvalidInput`: the error that a
/// seek to a negative or overflowing position gives.
#[verifier::external_body]
pub(crate) fn invalid_input() -> (e: std::io::Error) {
    std::io::Error::from(std::io::ErrorKind::InvalidInput)
}

impl Error {
    /// The words that introduce each kind of error in its message.
    pub open spec fn prefix(self) -> Seq<char> {
        match self {
            Error::Io(_) => "I/O error: "@,
            Error::InvalidFormat(_) => "Invalid format: "@,
            Error::InvalidByteOrder(_) => "Invalid byte order: 0x"@,
            Error::InvalidMagic(_) => "Invalid TIFF magic number: "@,
            Error::InvalidTag(_) => "Invalid tag: "@,
            Error::MissingTag(_) => "Missing required tag: "@,
            Error::Unsupported(_) => "Unsupported: "@,
            Error::InvalidOffset(_) => "Invalid offset: "@,
            Error::OutOfBounds(_) => "Out of bounds: "@,
            Error::Projection(_) => "Projection error: "@,
        }
    }

    /// What follows the prefix, for every kind but `Io`: the message as it
    /// was given, a number in decimal, or the byte-order word as four
    /// hexadecimal digits.
    pub open spec fn detail(self) -> Seq<char> {
        match self {
            Error::Io(_) => Seq::empty(),
            Error::InvalidFormat(msg) => msg@,
            Error::InvalidByteOrder(value) => crate::text::hex_fixed(value as nat, 4),
            Error::InvalidMagic(value) => crate::text::decimal(value as nat),
            Error::InvalidTag(tag) => crate::text::decimal(tag as nat),
            Error::MissingTag(tag) => crate::text::decimal(tag as nat),
            Error::Unsupported(msg) => msg@,
            Error::InvalidOffset(offset) => crate::text::decimal(offset as nat),
            Error::OutOfBounds(msg) => msg@,
            Error::Projection(msg) => msg@,
        }
    }

    /// The message of this error: its prefix, then its detail. For `Io` the
    /// detail is the text of the underlying error.
    pub fn to_string(&self) -> (s: String)
        ensures
            !(self is Io) ==> s@ == self.prefix() + self.detail(),
            self is Io ==> s@.len() >= self.prefix().len() && s@.subrange(
                0,
                self.prefix().len() as int,
            ) == self.prefix(),
    {
        match self {
            Error::Io(e) => {
                let text = io_error_text(e);
                let s = concat("I/O error: ", text.as_str());
                assert(s@.subrange(0, "I/O error: "@.len() as int) =~= "I/O error: "@);
                s
            },
            Error::InvalidFormat(msg) => concat("Invalid format: ", msg.as_str()),
            Error::InvalidByteOrder(value) => concat(
                "Invalid byte order: 0x",
                format_hex4(*value).as_str(),
            ),
            Error::InvalidMagic(value) => concat(
                "Invalid TIFF magic number: ",
                format_u64(*value as u64).as_str(),
            ),
            Error::InvalidTag(tag) => concat("Invalid tag: ", format_u64(*tag as u64).as_str()),
            Error::MissingTag(tag) => concat(
                "Missing required tag: ",
                format_u64(*tag as u64).as_str(),
            ),
            Error::Unsupported(msg) => concat("Unsupported: ", msg.as_str()),
            Error::InvalidOffset(offset) => concat(
                "Invalid offset: ",
                format_u64(*offset).as_str(),
            ),
            Error::OutOfBounds(msg) => concat("Out of bounds: ", msg.as_str()),
            Error::Projection(msg) => concat("Projection error: ", msg.as_str()),
        }
    }
}

impl From<std::io::Error> for Error {
    fn from(error: std::io::Error) -> (r: Error) {
        Error::Io(error)
    }
}

impl vstd::std_specs::convert::FromSpecImpl<std::io::Error> for Error {
    open spec fn obeys_from_spec() -> bool {
        true
    }

    open spec fn from_spec(error: std::io::Error) -> Error {
        Error::Io(error)
    }
}

} // verus!
