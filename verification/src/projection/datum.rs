//! Geodetic datums

use vstd::prelude::*;
use vstd::string::StringExecFns;

verus! {

/// Represents common geodetic datums
#[derive(Debug, Clone, Copy, PartialEq, Eq, Structural)]
pub enum Datum {
    WGS84,
    NAD83,
    NAD27,
    ETRS89,
    GDA94,
    GDA2020,
    Custom,
}

impl Datum {
    /// The parameter that names this datum: empty for a custom datum.
    pub open spec fn spec_proj_string(self) -> Seq<char> {
        match self {
            Datum::WGS84 => "+datum=WGS84"@,
            Datum::NAD83 => "+datum=NAD83"@,
            Datum::NAD27 => "+datum=NAD27"@,
            Datum::ETRS89 => "+datum=ETRS89"@,
            Datum::GDA94 => "+datum=GDA94"@,
            Datum::GDA2020 => "+datum=GDA2020"@,
            Datum::Custom => ""@,
        }
    }

    /// The definition of the transformation from one datum to another.
    pub open spec fn spec_transform_definition(from: Datum, to: Datum) -> Seq<char> {
        "+proj=longlat "@ + from.spec_proj_string() + " +to +proj=longlat "@
            + to.spec_proj_string()
    }

    /// Converts datum to PROJ string representation
    pub fn to_proj_string(&self) -> (s: &'static str)
        ensures
            s@ == self.spec_proj_string(),
    {
        match self {
            Datum::WGS84 => "+datum=WGS84",
            Datum::NAD83 => "+datum=NAD83",
            Datum::NAD27 => "+datum=NAD27",
            Datum::ETRS89 => "+datum=ETRS89",
            Datum::GDA94 => "+datum=GDA94",
            Datum::GDA2020 => "+datum=GDA2020",
            Datum::Custom => "",
        }
    }

    /// The definition of the transformation from one datum to another, as
    /// text.
    pub fn transform_definition(from: Datum, to: Datum) -> (s: String)
        ensures
            s@ == Self::spec_transform_definition(from, to),
    {
        let mut s = String::from_str("+proj=longlat ");
        s.append(from.to_proj_string());
        s.append(" +to +proj=longlat ");
        s.append(to.to_proj_string());
        s
    }
}

} // verus!
