//! Field type constants

use vstd::prelude::*;

verus! {

/// BYTE (8-bit unsigned)
pub const BYTE: u16 = 1;

/// ASCII string
pub const ASCII: u16 = 2;

/// SHORT (16-bit unsigned)
pub const SHORT: u16 = 3;

/// LONG (32-bit unsigned)
pub const LONG: u16 = 4;

/// RATIONAL (two LONGs: numerator, denominator)
pub const RATIONAL: u16 = 5;

/// SBYTE (8-bit signed)
pub const SBYTE: u16 = 6;

/// UNDEFINED (8-bit)
pub const UNDEFINED: u16 = 7;

/// SSHORT (16-bit signed)
pub const SSHORT: u16 = 8;

/// SLONG (32-bit signed)
pub const SLONG: u16 = 9;

/// SRATIONAL (two SLONGs)
pub const SRATIONAL: u16 = 10;

/// FLOAT (32-bit IEEE float)
pub const FLOAT: u16 = 11;

/// DOUBLE (64-bit IEEE double)
pub const DOUBLE: u16 = 12;

/// LONG8 (64-bit unsigned, BigTIFF)
pub const LONG8: u16 = 16;

/// SLONG8 (64-bit signed, BigTIFF)
pub const SLONG8: u16 = 17;

/// IFD8 (64-bit IFD offset, BigTIFF)
pub const IFD8: u16 = 18;

} // verus!
