//! Grid-based coordinate shifts

use vstd::prelude::*;
use vstd::string::StringExecFns;
use crate::error::Error;
use crate::text::concat;

verus! {

/// Applies grid-based coordinate shifts for high-accuracy transformations
pub struct GridShift {
    pub(crate) grid_path: String,
}

impl GridShift {
    /// The path of the grid file.
    pub open(crate) spec fn spec_grid_path(&self) -> String {
        self.grid_path
    }

    /// The definition of the shift along the grid file at `path`.
    pub open spec fn spec_definition(path: Seq<char>) -> Seq<char> {
        "+proj=pipeline +step +proj=hgridshift +grids="@ + path
    }

    /// Creates a new grid shift from a grid file path, given whether a file
    /// is there. A path without a file gives a `Projection` error.
    pub fn new(grid_path: &str, exists: bool) -> (r: Result<Self, Error>)
        ensures
            match r {
                Ok(shift) => exists && shift.spec_grid_path()@ == grid_path@,
                Err(e) => !exists && e is Projection,
            },
    {
        if !exists {
            return Err(Error::Projection(concat("Grid file not found: ", grid_path)));
        }
        Ok(Self { grid_path: String::from_str(grid_path) })
    }

    /// Returns the path to the grid file
    pub fn grid_path(&self) -> (s: &str)
        ensures
            s@ == self.spec_grid_path()@,
    {
        self.grid_path.as_str()
    }

    /// The definition of this shift, as text.
    pub fn definition(&self) -> (s: String)
        ensures
            s@ == Self::spec_definition(self.spec_grid_path()@),
    {
        concat("+proj=pipeline +step +proj=hgridshift +grids=", self.grid_path.as_str())
    }
}

/// Builder for complex grid shift pipelines with multiple grids
pub struct GridShiftBuilder {
    pub grid_files: Vec<String>,
    pub use_vgrid: bool,
}

impl GridShiftBuilder {
    /// `text` with the first `n` steps behind it, each after a space.
    pub open spec fn with_steps(text: Seq<char>, steps: Seq<String>, n: nat) -> Seq<char>
        decreases n,
    {
        if n == 0 {
            text
        } else if n == 1 {
            text + steps[0]@
        } else {
            Self::with_steps(text, steps, (n - 1) as nat) + " "@ + steps[n - 1]@
        }
    }

    /// The definition of the pipeline of all steps: `None` without steps.
    pub open spec fn spec_pipeline(self) -> Option<Seq<char>> {
        if self.grid_files@.len() == 0 {
            None
        } else {
            Some(
                Self::with_steps("+proj=pipeline "@, self.grid_files@, self.grid_files@.len()),
            )
        }
    }

    /// Creates a new grid shift builder
    pub fn new() -> (b: Self)
        ensures
            b.grid_files@ == Seq::<String>::empty(),
            !b.use_vgrid,
    {
        Self { grid_files: Vec::new(), use_vgrid: false }
    }

    /// Adds a horizontal grid shift to the pipeline
    pub fn add_horizontal_grid(self, grid_path: &str) -> (r: Result<Self, Error>)
        ensures
            r matches Ok(b) && b.use_vgrid == self.use_vgrid && b.grid_files@.len()
                == self.grid_files@.len() + 1 && b.grid_files@.subrange(
                0,
                self.grid_files@.len() as int,
            ) == self.grid_files@ && b.grid_files@.last()@ == "+step +proj=hgridshift +grids="@
                + grid_path@,
    {
        let mut b = self;
        b.grid_files.push(concat("+step +proj=hgridshift +grids=", grid_path));
        assert(b.grid_files@.subrange(0, self.grid_files@.len() as int) =~= self.grid_files@);
        Ok(b)
    }

    /// Adds a vertical grid shift to the pipeline
    pub fn add_vertical_grid(self, grid_path: &str) -> (r: Result<Self, Error>)
        ensures
            r matches Ok(b) && b.use_vgrid && b.grid_files@.len() == self.grid_files@.len() + 1
                && b.grid_files@.subrange(0, self.grid_files@.len() as int) == self.grid_files@
                && b.grid_files@.last()@ == "+step +proj=vgridshift +grids="@ + grid_path@,
    {
        let mut b = self;
        b.grid_files.push(concat("+step +proj=vgridshift +grids=", grid_path));
        b.use_vgrid = true;
        assert(b.grid_files@.subrange(0, self.grid_files@.len() as int) =~= self.grid_files@);
        Ok(b)
    }

    /// The definition of the pipeline of all steps, as text. A builder
    /// without steps gives a `Projection` error.
    pub fn pipeline(&self) -> (r: Result<String, Error>)
        ensures
            match r {
                Ok(text) => self.spec_pipeline() == Some(text@),
                Err(e) => self.spec_pipeline() is None && e is Projection,
            },
    {
        if self.grid_files.len() == 0 {
            return Err(Error::Projection("No grid files specified".to_string()));
        }
        let mut text = String::from_str("+proj=pipeline ");
        let ghost head = text@;
        let mut i: usize = 0;
        while i < self.grid_files.len()
            invariant
                i <= self.grid_files@.len(),
                head == "+proj=pipeline "@,
                text@ == Self::with_steps(head, self.grid_files@, i as nat),
            decreases self.grid_files@.len() - i,
        {
            let ghost before = text@;
            if i > 0 {
                text.append(" ");
            }
            text.append(self.grid_files[i].as_str());
            i = i + 1;
        }
        Ok(text)
    }
}

impl Default for GridShiftBuilder {
    fn default() -> (b: Self)
        ensures
            b.grid_files@ == Seq::<String>::empty(),
            !b.use_vgrid,
    {
        Self::new()
    }
}

} // verus!
