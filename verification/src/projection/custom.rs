//! Custom projection definitions

use vstd::prelude::*;
use vstd::string::StringExecFns;
use crate::error::Error;

verus! {

/// Builder for creating custom projection definitions
pub struct ProjectionBuilder {
    pub(crate) proj_type: Option<String>,
    pub(crate) ellipsoid: Option<String>,
    pub(crate) datum: Option<String>,
    pub(crate) parameters: Vec<(String, String)>,
}

impl ProjectionBuilder {
    /// The projection type.
    pub open(crate) spec fn spec_proj_type(&self) -> Option<String> {
        self.proj_type
    }

    /// The ellipsoid.
    pub open(crate) spec fn spec_ellipsoid(&self) -> Option<String> {
        self.ellipsoid
    }

    /// The datum.
    pub open(crate) spec fn spec_datum(&self) -> Option<String> {
        self.datum
    }

    /// The further parameters, in their order.
    pub open(crate) spec fn spec_parameters(&self) -> Vec<(String, String)> {
        self.parameters
    }

    /// `text` with ` +key=value` behind it for each of the first `n`
    /// parameters.
    pub open spec fn with_parameters(
        text: Seq<char>,
        parameters: Seq<(String, String)>,
        n: nat,
    ) -> Seq<char>
        decreases n,
    {
        if n == 0 {
            text
        } else {
            Self::with_parameters(text, parameters, (n - 1) as nat) + " +"@ + parameters[n - 1].0@
                + "="@ + parameters[n - 1].1@
        }
    }

    /// `text` with ` +key=value` behind it where there is a value.
    pub open spec fn with_optional(text: Seq<char>, key: Seq<char>, value: Option<String>) -> Seq<
        char,
    > {
        match value {
            Some(v) => text + key + v@,
            None => text,
        }
    }

    /// The definition that this builder stands for: `+proj=` and the
    /// projection type, then ellipsoid, datum and the parameters in their
    /// order, each as ` +key=value`. `None` without a projection type.
    pub open(crate) spec fn spec_definition(self) -> Option<Seq<char>> {
        match self.proj_type {
            None => None,
            Some(proj_type) => Some(
                Self::with_parameters(
                    Self::with_optional(
                        Self::with_optional("+proj="@ + proj_type@, " +ellps="@, self.ellipsoid),
                        " +datum="@,
                        self.datum,
                    ),
                    self.parameters@,
                    self.parameters@.len(),
                ),
            ),
        }
    }

    /// Creates a new projection builder
    pub fn new() -> (b: Self)
        ensures
            b.spec_proj_type() is None,
            b.spec_ellipsoid() is None,
            b.spec_datum() is None,
            b.spec_parameters()@ == Seq::<(String, String)>::empty(),
    {
        Self { proj_type: None, ellipsoid: None, datum: None, parameters: Vec::new() }
    }

    /// Sets the projection type (e.g., "utm", "tmerc", "lcc")
    pub fn projection_type(self, proj_type: &str) -> (b: Self)
        ensures
            b.spec_proj_type() is Some && b.spec_proj_type()->Some_0@ == proj_type@,
            b.spec_ellipsoid() == self.spec_ellipsoid(),
            b.spec_datum() == self.spec_datum(),
            b.spec_parameters() == self.spec_parameters(),
    {
        let mut b = self;
        b.proj_type = Some(String::from_str(proj_type));
        b
    }

    /// Sets the ellipsoid (e.g., "WGS84", "GRS80")
    pub fn ellipsoid(self, ellipsoid: &str) -> (b: Self)
        ensures
            b.spec_ellipsoid() is Some && b.spec_ellipsoid()->Some_0@ == ellipsoid@,
            b.spec_proj_type() == self.spec_proj_type(),
            b.spec_datum() == self.spec_datum(),
            b.spec_parameters() == self.spec_parameters(),
    {
        let mut b = self;
        b.ellipsoid = Some(String::from_str(ellipsoid));
        b
    }

    /// Sets the datum (e.g., "WGS84", "NAD83")
    pub fn datum(self, datum: &str) -> (b: Self)
        ensures
            b.spec_datum() is Some && b.spec_datum()->Some_0@ == datum@,
            b.spec_proj_type() == self.spec_proj_type(),
            b.spec_ellipsoid() == self.spec_ellipsoid(),
            b.spec_parameters() == self.spec_parameters(),
    {
        let mut b = self;
        b.datum = Some(String::from_str(datum));
        b
    }

    /// Adds a custom parameter
    pub fn parameter(self, key: &str, value: &str) -> (b: Self)
        ensures
            b.spec_proj_type() == self.spec_proj_type(),
            b.spec_ellipsoid() == self.spec_ellipsoid(),
            b.spec_datum() == self.spec_datum(),
            b.spec_parameters()@.len() == self.spec_parameters()@.len() + 1,
            b.spec_parameters()@.subrange(0, self.spec_parameters()@.len() as int)
                == self.spec_parameters()@,
            b.spec_parameters()@.last().0@ == key@,
            b.spec_parameters()@.last().1@ == value@,
    {
        let mut b = self;
        b.parameters.push((String::from_str(key), String::from_str(value)));
        assert(b.parameters@.subrange(0, self.parameters@.len() as int) =~= self.parameters@);
        b
    }

    /// Sets the units (e.g., "m", "ft", "us-ft")
    pub fn units(self, units: &str) -> (b: Self)
        ensures
            b.spec_proj_type() == self.spec_proj_type(),
            b.spec_ellipsoid() == self.spec_ellipsoid(),
            b.spec_datum() == self.spec_datum(),
            b.spec_parameters()@.len() == self.spec_parameters()@.len() + 1,
            b.spec_parameters()@.subrange(0, self.spec_parameters()@.len() as int)
                == self.spec_parameters()@,
            b.spec_parameters()@.last().0@ == "units"@,
            b.spec_parameters()@.last().1@ == units@,
    {
        self.parameter("units", units)
    }

    /// The definition that this builder stands for, as text. A builder
    /// without a projection type gives a `Projection` error.
    pub fn definition(&self) -> (r: Result<String, Error>)
        ensures
            match r {
                Ok(text) => self.spec_definition() == Some(text@),
                Err(e) => self.spec_definition() is None && e is Projection,
            },
    {
        let proj_type = match &self.proj_type {
            Some(t) => t,
            None => {
                return Err(Error::Projection("Projection type is required".to_string()));
            },
        };
        let mut text = String::from_str("+proj=");
        text.append(proj_type.as_str());
        if let Some(ellipsoid) = &self.ellipsoid {
            text.append(" +ellps=");
            text.append(ellipsoid.as_str());
            assert(text@ =~= "+proj="@ + proj_type@ + (" +ellps="@ + ellipsoid@));
            assert(text@ =~= "+proj="@ + proj_type@ + " +ellps="@ + ellipsoid@);
        }
        let ghost with_ellipsoid = text@;
        if let Some(datum) = &self.datum {
            text.append(" +datum=");
            text.append(datum.as_str());
            assert(text@ =~= with_ellipsoid + " +datum="@ + datum@);
        }
        let ghost head = text@;
        let mut i: usize = 0;
        while i < self.parameters.len()
            invariant
                i <= self.parameters@.len(),
                text@ == Self::with_parameters(head, self.parameters@, i as nat),
            decreases self.parameters@.len() - i,
        {
            let pair = &self.parameters[i];
            let ghost before = text@;
            text.append(" +");
            text.append(pair.0.as_str());
            text.append("=");
            text.append(pair.1.as_str());
            i = i + 1;
            assert(text@ =~= before + " +"@ + pair.0@ + "="@ + pair.1@);
        }
        Ok(text)
    }
}

impl Default for ProjectionBuilder {
    fn default() -> (b: Self)
        ensures
            b.spec_proj_type() is None,
            b.spec_ellipsoid() is None,
            b.spec_datum() is None,
            b.spec_parameters()@ == Seq::<(String, String)>::empty(),
    {
        Self::new()
    }
}

} // verus!
