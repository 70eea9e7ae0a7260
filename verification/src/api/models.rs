//! Values that the adapter exchanges

use vstd::prelude::*;

verus! {

/// The body of an error answer.
#[derive(Debug)]
pub struct ErrorResponse {
    pub error: String,
}

/// The EPSG code that a request means when it names none: WGS 84.
pub fn default_epsg() -> (code: u16)
    ensures
        code == 4326,
{
    4326
}

/// One point of a CSV request. Latitude and longitude are kept as the text
/// that is written back.
#[derive(Debug)]
pub struct CsvRow {
    pub latitude: String,
    pub longitude: String,
    pub name: Option<String>,
}

} // verus!
