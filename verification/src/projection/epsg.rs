//! EPSG codes and their names.

use vstd::prelude::*;
use crate::text::{concat, format_u64};

verus! {

/// WGS 84, geographic coordinates.
pub const WGS84: u16 = 4326;

/// WGS 84 / Pseudo-Mercator.
pub const WEB_MERCATOR: u16 = 3857;

/// The name of the coordinate reference system with an EPSG code:
/// `EPSG:` and the code in decimal.
pub open spec fn spec_crs_name(code: u16) -> Seq<char> {
    "EPSG:"@ + crate::text::decimal(code as nat)
}

/// The name of the coordinate reference system with an EPSG code.
pub fn crs_name(code: u16) -> (s: String)
    ensures
        s@ == spec_crs_name(code),
{
    concat("EPSG:", format_u64(code as u64).as_str())
}

} // verus!
